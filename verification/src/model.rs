//! The observation store and the engine built on it: an append-only time
//! series of probability observations per market, a side table of display
//! metadata, and an append-only publication log.
//!
//! All reasoning is done over the stored sequences: every public method
//! states its result in terms of recursive spec functions over them.
//!
//! Window targets are measured from each market's own newest observation,
//! not from the wall clock, so after a dormant stretch the hour-ago
//! lookup still lands on real readings instead of searching an empty
//! stretch of time; a freshness bound against the newest observation in
//! the whole store keeps abandoned markets out of a cycle.

use vstd::prelude::*;

use crate::change::{spec_eligible, spec_significance, Change, DiffDuration};
use crate::platforms::Platform;
use vstd::string::StringExecFns;

verus! {

/// Largest timestamp the store accepts, in unix seconds (end of year 9999).
pub const MAX_TS: i64 = 253_402_300_799;

/// Relies on std::time::SystemTime::now and duration_since: the current
/// time as seconds since the unix epoch, or the error branch for a clock
/// that reads before it, converted to zero here. Neither call panics, and
/// nothing is promised of the value; the system clock may say anything.
#[verifier::external_body]
fn now_unix() -> i64 {
    match std::time::SystemTime::now().duration_since(std::time::UNIX_EPOCH) {
        Ok(d) => d.as_secs() as i64,
        Err(_) => 0,
    }
}

/// The current instant, clamped into the store's accepted timestamp
/// range whatever the system clock returned.
pub fn current_unix_time() -> (t: i64)
    ensures
        0 <= t <= MAX_TS,
{
    let t = now_unix();
    if t < 0 {
        0
    } else if t > MAX_TS {
        MAX_TS
    } else {
        t
    }
}

/// A market identifier on a platform. Multi-outcome markets carry a
/// sub-answer part; announcements are deduplicated on the base part only.
#[derive(Debug, Clone)]
pub struct MarketId {
    pub base: String,
    pub sub: Option<String>,
}

/// Two market identifiers name the same market outcome.
pub open spec fn spec_id_eq(a: MarketId, b: MarketId) -> bool {
    &&& a.base@ == b.base@
    &&& match (a.sub, b.sub) {
        (Option::None, Option::None) => true,
        (Option::Some(x), Option::Some(y)) => x@ == y@,
        _ => false,
    }
}

impl PartialEq for MarketId {
    fn eq(&self, other: &MarketId) -> (r: bool) {
        self.base == other.base && match (&self.sub, &other.sub) {
            (Option::None, Option::None) => true,
            (Option::Some(x), Option::Some(y)) => *x == *y,
            _ => false,
        }
    }
}

impl vstd::std_specs::cmp::PartialEqSpecImpl for MarketId {
    open spec fn obeys_eq_spec() -> bool {
        true
    }

    open spec fn eq_spec(&self, other: &MarketId) -> bool {
        spec_id_eq(*self, *other)
    }
}

impl MarketId {
    /// An identical copy.
    pub fn duplicate(&self) -> (r: MarketId)
        ensures
            r == *self,
    {
        MarketId {
            base: self.base.clone(),
            sub: match &self.sub {
                Option::Some(s) => Option::Some(s.clone()),
                Option::None => Option::None,
            },
        }
    }
}

/// One timestamped probability reading for a market, in basis points.
#[derive(Debug, Clone)]
pub struct Observation {
    pub platform: Platform,
    pub id: MarketId,
    pub prob: u32,
    pub time: i64,
}

impl Observation {
    /// An identical copy.
    pub fn duplicate(&self) -> (r: Observation)
        ensures
            r == *self,
    {
        Observation {
            platform: self.platform,
            id: self.id.duplicate(),
            prob: self.prob,
            time: self.time,
        }
    }
}

/// Latest display metadata for a market; last write wins.
#[derive(Debug, Clone)]
pub struct MarketMetadata {
    pub platform: Platform,
    pub id: MarketId,
    pub title: String,
    pub url: String,
}

/// One announcement that was actually sent, keyed by platform and base
/// market identifier.
#[derive(Debug, Clone)]
pub struct PublicationRecord {
    pub time: i64,
    pub platform: Platform,
    pub base: String,
}

/// An observation belongs to the market asked about.
pub open spec fn obs_matches(o: Observation, platform: Platform, id: MarketId) -> bool {
    o.platform == platform && spec_id_eq(o.id, id)
}

/// The newest observation for a market: the one with the greatest
/// timestamp, the later-stored one on equal timestamps.
pub open spec fn spec_latest(s: Seq<Observation>, platform: Platform, id: MarketId) -> Option<
    Observation,
>
    decreases s.len(),
{
    if s.len() == 0 {
        Option::None
    } else {
        let prev = spec_latest(s.drop_last(), platform, id);
        let o = s.last();
        if obs_matches(o, platform, id) {
            match prev {
                Option::None => Option::Some(o),
                Option::Some(p) => if o.time >= p.time {
                    Option::Some(o)
                } else {
                    Option::Some(p)
                },
            }
        } else {
            prev
        }
    }
}

/// The probability that was most recent for a market, if any observation
/// of it exists.
pub open spec fn spec_previous_probability(
    s: Seq<Observation>,
    platform: Platform,
    id: MarketId,
) -> Option<u32> {
    match spec_latest(s, platform, id) {
        Option::None => Option::None,
        Option::Some(o) => Option::Some(o.prob),
    }
}

/// How far a timestamp lies from a target instant.
pub open spec fn spec_dist(t: int, target: int) -> int {
    if t >= target {
        t - target
    } else {
        target - t
    }
}

/// The timestamp falls inside the asymmetric tolerance band around the
/// target instant.
pub open spec fn in_band(t: int, target: int, lo: int, hi: int) -> bool {
    target - lo <= t <= target + hi
}

/// The observation of a market closest to the target instant among those
/// inside the band; the earlier-stored one wins ties.
pub open spec fn spec_closest_to(
    s: Seq<Observation>,
    platform: Platform,
    id: MarketId,
    target: int,
    lo: int,
    hi: int,
) -> Option<Observation>
    decreases s.len(),
{
    if s.len() == 0 {
        Option::None
    } else {
        let prev = spec_closest_to(s.drop_last(), platform, id, target, lo, hi);
        let o = s.last();
        if obs_matches(o, platform, id) && in_band(o.time as int, target, lo, hi) {
            match prev {
                Option::None => Option::Some(o),
                Option::Some(p) => if spec_dist(o.time as int, target) < spec_dist(
                    p.time as int,
                    target,
                ) {
                    Option::Some(o)
                } else {
                    Option::Some(p)
                },
            }
        } else {
            prev
        }
    }
}

/// The metadata row that currently describes a market: the last one
/// written for it.
pub open spec fn spec_details_lookup(
    s: Seq<MarketMetadata>,
    platform: Platform,
    id: MarketId,
) -> Option<MarketMetadata>
    decreases s.len(),
{
    if s.len() == 0 {
        Option::None
    } else {
        let m = s.last();
        if m.platform == platform && spec_id_eq(m.id, id) {
            Option::Some(m)
        } else {
            spec_details_lookup(s.drop_last(), platform, id)
        }
    }
}

/// One hour, in seconds.
pub const HOUR_SECS: i64 = 3_600;

/// One day, in seconds.
pub const DAY_SECS: i64 = 86_400;

/// One week, in seconds.
pub const WEEK_SECS: i64 = 604_800;

/// The hour-ago band reaches this far back before its target instant.
pub const HOUR_BAND_LO: i64 = 2_340;

/// The hour-ago band reaches this far forward past its target instant;
/// it stays well short of the newest observation, so a reading is never
/// compared against itself.
pub const HOUR_BAND_HI: i64 = 300;

/// The day-ago band reaches this far back before its target instant.
pub const DAY_BAND_LO: i64 = 14_400;

/// The day-ago band reaches this far forward past its target instant.
pub const DAY_BAND_HI: i64 = 7_200;

/// The week-ago band reaches this far back before its target instant.
pub const WEEK_BAND_LO: i64 = 86_400;

/// The week-ago band reaches this far forward past its target instant.
pub const WEEK_BAND_HI: i64 = 86_400;

/// A market only contributes candidates while its newest observation lies
/// within this many seconds of the newest observation in the whole store.
pub const FRESH_SLACK: i64 = 600;

/// How far back a window's target instant lies before the market's newest
/// observation.
pub open spec fn window_offset(d: DiffDuration) -> int {
    match d {
        DiffDuration::Hour => HOUR_SECS as int,
        DiffDuration::Day => DAY_SECS as int,
        DiffDuration::Week => WEEK_SECS as int,
    }
}

/// Backward reach of a window's tolerance band.
pub open spec fn window_band_lo(d: DiffDuration) -> int {
    match d {
        DiffDuration::Hour => HOUR_BAND_LO as int,
        DiffDuration::Day => DAY_BAND_LO as int,
        DiffDuration::Week => WEEK_BAND_LO as int,
    }
}

/// Forward reach of a window's tolerance band. Always smaller than the
/// window's offset, so the band ends strictly before the newest
/// observation.
pub open spec fn window_band_hi(d: DiffDuration) -> int {
    match d {
        DiffDuration::Hour => HOUR_BAND_HI as int,
        DiffDuration::Day => DAY_BAND_HI as int,
        DiffDuration::Week => WEEK_BAND_HI as int,
    }
}

/// The newest observation timestamp anywhere in the store.
pub open spec fn spec_max_time(s: Seq<Observation>) -> Option<int>
    decreases s.len(),
{
    if s.len() == 0 {
        Option::None
    } else {
        let prev = spec_max_time(s.drop_last());
        let t = s.last().time as int;
        match prev {
            Option::None => Option::Some(t),
            Option::Some(m) => if t >= m {
                Option::Some(t)
            } else {
                Option::Some(m)
            },
        }
    }
}

/// The reference instant freshness is measured against: the newest
/// observation in the store, or the current instant when the store is
/// empty.
pub open spec fn spec_ref_time(s: Seq<Observation>, now: int) -> int {
    match spec_max_time(s) {
        Option::None => now,
        Option::Some(m) => m,
    }
}

/// A market's newest observation is recent enough for the market to be
/// considered this cycle.
pub open spec fn spec_fresh(s: Seq<Observation>, l: Observation, now: int) -> bool {
    l.time + FRESH_SLACK >= spec_ref_time(s, now)
}

/// The comparison observation a window resolves to: the stored reading
/// closest to "offset ago" measured from the market's newest observation,
/// within the window's tolerance band.
pub open spec fn spec_window_before(
    s: Seq<Observation>,
    platform: Platform,
    id: MarketId,
    l: Observation,
    d: DiffDuration,
) -> Option<Observation> {
    spec_closest_to(
        s,
        platform,
        id,
        l.time - window_offset(d),
        window_band_lo(d),
        window_band_hi(d),
    )
}

/// The candidate carries the display metadata on file for its market, or
/// the placeholders when none exists.
pub open spec fn spec_details_match(details: Seq<MarketMetadata>, c: Change) -> bool {
    match spec_details_lookup(details, c.platform, c.id) {
        Option::Some(m) => c.url@ == m.url@ && c.title@ == m.title@,
        Option::None => c.url@ == "?"@ && c.title@ == "??"@,
    }
}

/// What it means for a change to be a candidate this cycle: its market's
/// newest observation is fresh, the change runs from the observation its
/// window resolved to up to that newest observation, and it carries the
/// market's display metadata.
pub open spec fn spec_is_candidate(
    obs: Seq<Observation>,
    details: Seq<MarketMetadata>,
    c: Change,
    now: int,
) -> bool {
    spec_latest(obs, c.platform, c.id) matches Option::Some(l) && {
        &&& c.id == l.id
        &&& spec_fresh(obs, l, now)
        &&& c.p_after == l.prob
        &&& spec_window_before(obs, c.platform, c.id, l, c.duration) matches Option::Some(b)
            && c.p_before == b.prob
        &&& spec_details_match(details, c)
    }
}

/// Querying the newest observation with either of two identifiers of the
/// same market finds the same observation.
pub proof fn lemma_latest_key_eq(
    s: Seq<Observation>,
    platform: Platform,
    id1: MarketId,
    id2: MarketId,
)
    requires
        spec_id_eq(id1, id2),
    ensures
        spec_latest(s, platform, id1) == spec_latest(s, platform, id2),
    decreases s.len(),
{
    if s.len() > 0 {
        lemma_latest_key_eq(s.drop_last(), platform, id1, id2);
    }
}

/// Querying the closest observation with either of two identifiers of the
/// same market finds the same observation.
pub proof fn lemma_closest_key_eq(
    s: Seq<Observation>,
    platform: Platform,
    id1: MarketId,
    id2: MarketId,
    target: int,
    lo: int,
    hi: int,
)
    requires
        spec_id_eq(id1, id2),
    ensures
        spec_closest_to(s, platform, id1, target, lo, hi) == spec_closest_to(
            s,
            platform,
            id2,
            target,
            lo,
            hi,
        ),
    decreases s.len(),
{
    if s.len() > 0 {
        lemma_closest_key_eq(s.drop_last(), platform, id1, id2, target, lo, hi);
    }
}

/// Querying the metadata table with either of two identifiers of the same
/// market finds the same row.
pub proof fn lemma_details_key_eq(
    s: Seq<MarketMetadata>,
    platform: Platform,
    id1: MarketId,
    id2: MarketId,
)
    requires
        spec_id_eq(id1, id2),
    ensures
        spec_details_lookup(s, platform, id1) == spec_details_lookup(s, platform, id2),
    decreases s.len(),
{
    if s.len() > 0 {
        lemma_details_key_eq(s.drop_last(), platform, id1, id2);
    }
}

/// What the newest-observation query guarantees: it finds something
/// exactly when the market has an observation, what it finds is a stored
/// observation of that market, and nothing stored for the market is
/// newer.
pub proof fn lemma_latest_props(s: Seq<Observation>, platform: Platform, id: MarketId)
    ensures
        spec_latest(s, platform, id) is Some <==> exists|j: int|
            0 <= j < s.len() && obs_matches(#[trigger] s[j], platform, id),
        spec_latest(s, platform, id) matches Option::Some(l) ==> {
            &&& obs_matches(l, platform, id)
            &&& exists|j: int| 0 <= j < s.len() && #[trigger] s[j] == l
            &&& forall|j: int|
                0 <= j < s.len() && obs_matches(#[trigger] s[j], platform, id) ==> s[j].time
                    <= l.time
        },
    decreases s.len(),
{
    if s.len() > 0 {
        lemma_latest_props(s.drop_last(), platform, id);
        assert(forall|j: int| 0 <= j < s.len() - 1 ==> #[trigger] s[j] == s.drop_last()[j]);
        assert(s[s.len() - 1] == s.last());
    }
}

/// What the closest-observation query guarantees: what it finds is a
/// stored observation of the market inside the band, nothing stored for
/// the market inside the band lies closer to the target, and it finds
/// nothing exactly when nothing stored for the market lies in the band.
pub proof fn lemma_closest_props(
    s: Seq<Observation>,
    platform: Platform,
    id: MarketId,
    target: int,
    lo: int,
    hi: int,
)
    ensures
        spec_closest_to(s, platform, id, target, lo, hi) is Some <==> exists|j: int|
            0 <= j < s.len() && obs_matches(#[trigger] s[j], platform, id) && in_band(
                s[j].time as int,
                target,
                lo,
                hi,
            ),
        spec_closest_to(s, platform, id, target, lo, hi) matches Option::Some(b) ==> {
            &&& obs_matches(b, platform, id)
            &&& in_band(b.time as int, target, lo, hi)
            &&& exists|j: int| 0 <= j < s.len() && #[trigger] s[j] == b
            &&& forall|j: int|
                0 <= j < s.len() && obs_matches(#[trigger] s[j], platform, id) && in_band(
                    s[j].time as int,
                    target,
                    lo,
                    hi,
                ) ==> spec_dist(b.time as int, target) <= spec_dist(s[j].time as int, target)
        },
    decreases s.len(),
{
    if s.len() > 0 {
        lemma_closest_props(s.drop_last(), platform, id, target, lo, hi);
        assert(forall|j: int| 0 <= j < s.len() - 1 ==> #[trigger] s[j] == s.drop_last()[j]);
        assert(s[s.len() - 1] == s.last());
    }
}

/// How many of the newest publication log entries count for
/// deduplication.
pub const PUB_WINDOW: usize = 30;

/// Seconds by which a publication may fire early, absorbing scheduler
/// jitter.
pub const SILENCE_SLACK: i64 = 600;

/// The first index of the publication log that still counts for
/// deduplication.
pub open spec fn pub_window_start(s: Seq<PublicationRecord>) -> int {
    if s.len() >= PUB_WINDOW {
        s.len() - PUB_WINDOW
    } else {
        0
    }
}

/// The market was announced within the tracked window of newest
/// publication log entries. Matching is on platform and base identifier
/// only, so sub-answer variants of one market count as the same market.
pub open spec fn spec_recently_published(
    s: Seq<PublicationRecord>,
    platform: Platform,
    base: Seq<char>,
) -> bool {
    exists|i: int|
        pub_window_start(s) <= i < s.len() && (#[trigger] s[i]).platform == platform && s[i].base@
            == base
}

/// When the last announcement was sent, if one ever was.
pub open spec fn spec_last_pub_time(s: Seq<PublicationRecord>) -> Option<int> {
    if s.len() == 0 {
        Option::None
    } else {
        Option::Some(s.last().time as int)
    }
}

/// A candidate for the given market may be announced now: it was not
/// itself announced recently, and the last announcement of anything lies
/// at least the minimum silence (less the jitter slack) in the past. No
/// announcement ever means unbounded silence, which always passes.
pub open spec fn spec_should_publish(
    s: Seq<PublicationRecord>,
    platform: Platform,
    base: Seq<char>,
    now: int,
    min_silence: int,
) -> bool {
    &&& !spec_recently_published(s, platform, base)
    &&& match spec_last_pub_time(s) {
        Option::None => true,
        Option::Some(t) => now - t >= min_silence - SILENCE_SLACK,
    }
}

/// The observations that survive a retention sweep: those no older than
/// the horizon, in their stored order.
pub open spec fn spec_retained(s: Seq<Observation>, horizon: int) -> Seq<Observation>
    decreases s.len(),
{
    if s.len() == 0 {
        Seq::empty()
    } else {
        let prev = spec_retained(s.drop_last(), horizon);
        if s.last().time >= horizon {
            prev.push(s.last())
        } else {
            prev
        }
    }
}

/// A fetched market listing may be stored: its probability lies within
/// zero and one.
pub open spec fn spec_valid_status(s: crate::platforms::MarketStatus) -> bool {
    0 <= s.prob <= crate::change::PROB_ONE_BP
}

/// The observation a valid listing turns into at ingest time.
pub open spec fn status_obs(s: crate::platforms::MarketStatus, time: i64) -> Observation {
    Observation { platform: s.platform, id: s.id, prob: s.prob as u32, time }
}

/// The metadata row a valid listing turns into at ingest time.
pub open spec fn status_meta(s: crate::platforms::MarketStatus) -> MarketMetadata {
    MarketMetadata { platform: s.platform, id: s.id, title: s.title, url: s.url }
}

/// The observations stored after ingesting a batch: one per valid
/// listing, in batch order, appended to what was there.
pub open spec fn spec_ingest_obs(
    init: Seq<Observation>,
    batch: Seq<crate::platforms::MarketStatus>,
    time: i64,
) -> Seq<Observation>
    decreases batch.len(),
{
    if batch.len() == 0 {
        init
    } else {
        let prev = spec_ingest_obs(init, batch.drop_last(), time);
        if spec_valid_status(batch.last()) {
            prev.push(status_obs(batch.last(), time))
        } else {
            prev
        }
    }
}

/// The metadata rows stored after ingesting a batch.
pub open spec fn spec_ingest_details(
    init: Seq<MarketMetadata>,
    batch: Seq<crate::platforms::MarketStatus>,
) -> Seq<MarketMetadata>
    decreases batch.len(),
{
    if batch.len() == 0 {
        init
    } else {
        let prev = spec_ingest_details(init, batch.drop_last());
        if spec_valid_status(batch.last()) {
            prev.push(status_meta(batch.last()))
        } else {
            prev
        }
    }
}

/// Some observation among the first `upto` stored ones belongs to the
/// change's market.
spec fn key_seen(s: Seq<Observation>, c: Change, upto: int) -> bool {
    exists|j: int| 0 <= j < upto && obs_matches(#[trigger] s[j], c.platform, c.id)
}

/// The store: three append-only tables, reasoned about as sequences.
pub struct Model {
    obs: Vec<Observation>,
    details: Vec<MarketMetadata>,
    publog: Vec<PublicationRecord>,
}

impl Model {
    /// The stored observations, oldest first.
    pub closed spec fn obs_seq(&self) -> Seq<Observation> {
        self.obs@
    }

    /// The stored metadata rows, oldest first.
    pub closed spec fn details_seq(&self) -> Seq<MarketMetadata> {
        self.details@
    }

    /// The publication log, oldest first.
    pub closed spec fn publog_seq(&self) -> Seq<PublicationRecord> {
        self.publog@
    }

    /// Well-formedness: probabilities are within one, timestamps within
    /// range, and the publication log never runs backwards in time.
    pub open spec fn wf(&self) -> bool {
        &&& forall|i: int|
            0 <= i < self.obs_seq().len() ==> (#[trigger] self.obs_seq()[i]).prob
                <= crate::change::PROB_ONE_BP
        &&& forall|i: int|
            0 <= i < self.obs_seq().len() ==> 0 <= (#[trigger] self.obs_seq()[i]).time <= MAX_TS
        &&& forall|i: int|
            0 <= i < self.publog_seq().len() ==> 0 <= (#[trigger] self.publog_seq()[i]).time
                <= MAX_TS
        &&& forall|i: int, j: int|
            0 <= i < j < self.publog_seq().len() ==> (#[trigger] self.publog_seq()[i]).time <= (
            #[trigger] self.publog_seq()[j]).time
    }

    /// An empty store.
    pub fn new() -> (m: Model)
        ensures
            m.wf(),
            m.obs_seq() == Seq::<Observation>::empty(),
            m.details_seq() == Seq::<MarketMetadata>::empty(),
            m.publog_seq() == Seq::<PublicationRecord>::empty(),
    {
        Model { obs: Vec::new(), details: Vec::new(), publog: Vec::new() }
    }

    /// The newest observation for a market, if any.
    pub fn latest(&self, platform: Platform, id: &MarketId) -> (r: Option<Observation>)
        ensures
            r == spec_latest(self.obs_seq(), platform, *id),
    {
        let mut cur: Option<Observation> = Option::None;
        let n = self.obs.len();
        for i in 0..n
            invariant
                n == self.obs_seq().len(),
                cur == spec_latest(self.obs_seq().take(i as int), platform, *id),
        {
            proof {
                assert(self.obs_seq().take(i + 1).drop_last() =~= self.obs_seq().take(i as int));
                assert(self.obs_seq().take(i + 1).last() == self.obs_seq()[i as int]);
            }
            let o = &self.obs[i];
            if o.platform == platform && o.id.eq(id) {
                let replace = match &cur {
                    Option::None => true,
                    Option::Some(p) => o.time >= p.time,
                };
                if replace {
                    cur = Option::Some(o.duplicate());
                }
            }
        }
        proof {
            assert(self.obs_seq().take(n as int) =~= self.obs_seq());
        }
        cur
    }

    /// The observation of a market whose timestamp falls within
    /// `[target - lo, target + hi]` and lies closest to `target`, if any
    /// does.
    pub fn closest_to(&self, platform: Platform, id: &MarketId, target: i64, lo: i64, hi: i64) -> (r:
        Option<Observation>)
        requires
            0 <= lo,
            0 <= hi,
            i64::MIN + lo <= target,
            target <= i64::MAX - hi,
        ensures
            r == spec_closest_to(self.obs_seq(), platform, *id, target as int, lo as int, hi as int),
    {
        let mut cur: Option<Observation> = Option::None;
        let mut cur_dist: i64 = 0;
        let n = self.obs.len();
        for i in 0..n
            invariant
                n == self.obs_seq().len(),
                0 <= lo,
                0 <= hi,
                i64::MIN + lo <= target,
                target <= i64::MAX - hi,
                cur == spec_closest_to(
                    self.obs_seq().take(i as int),
                    platform,
                    *id,
                    target as int,
                    lo as int,
                    hi as int,
                ),
                cur matches Option::Some(p) ==> cur_dist == spec_dist(p.time as int, target as int),
        {
            proof {
                assert(self.obs_seq().take(i + 1).drop_last() =~= self.obs_seq().take(i as int));
                assert(self.obs_seq().take(i + 1).last() == self.obs_seq()[i as int]);
            }
            let o = &self.obs[i];
            if o.platform == platform && o.id.eq(id) && target - lo <= o.time && o.time <= target
                + hi {
                let d = if o.time >= target {
                    o.time - target
                } else {
                    target - o.time
                };
                let replace = match &cur {
                    Option::None => true,
                    Option::Some(_) => d < cur_dist,
                };
                if replace {
                    cur = Option::Some(o.duplicate());
                    cur_dist = d;
                }
            }
        }
        proof {
            assert(self.obs_seq().take(n as int) =~= self.obs_seq());
        }
        cur
    }

    /// The display metadata currently on file for a market: its url and
    /// title, in that order, with placeholders when none was ever stored.
    pub fn get_details(&self, platform: Platform, id: &MarketId) -> (r: (String, String))
        ensures
            match spec_details_lookup(self.details_seq(), platform, *id) {
                Option::Some(m) => r.0@ == m.url@ && r.1@ == m.title@,
                Option::None => r.0@ == "?"@ && r.1@ == "??"@,
            },
    {
        let mut i = self.details.len();
        proof {
            assert(self.details_seq().take(i as int) =~= self.details_seq());
        }
        while i > 0
            invariant
                i <= self.details_seq().len(),
                spec_details_lookup(self.details_seq(), platform, *id) == spec_details_lookup(
                    self.details_seq().take(i as int),
                    platform,
                    *id,
                ),
            decreases i,
        {
            proof {
                assert(self.details_seq().take(i as int).drop_last() =~= self.details_seq().take(
                    i - 1,
                ));
                assert(self.details_seq().take(i as int).last() == self.details_seq()[i - 1]);
            }
            i = i - 1;
            let m = &self.details[i];
            if m.platform == platform && m.id.eq(id) {
                return (m.url.clone(), m.title.clone());
            }
        }
        (String::from_str("?"), String::from_str("??"))
    }

    /// The market was announced within the tracked window of newest
    /// publication log entries.
    pub fn recently_published(&self, platform: Platform, id: &MarketId) -> (r: bool)
        ensures
            r == spec_recently_published(self.publog_seq(), platform, id.base@),
    {
        let n = self.publog.len();
        let start = if n >= PUB_WINDOW {
            n - PUB_WINDOW
        } else {
            0
        };
        let mut j = start;
        while j < n
            invariant
                start == pub_window_start(self.publog_seq()),
                start <= j <= n,
                n == self.publog_seq().len(),
                forall|k: int|
                    start <= k < j ==> !((#[trigger] self.publog_seq()[k]).platform == platform
                        && self.publog_seq()[k].base@ == id.base@),
            decreases n - j,
        {
            let rec = &self.publog[j];
            if rec.platform == platform && rec.base == id.base {
                return true;
            }
            j = j + 1;
        }
        false
    }

    /// How long ago the most recent announcement was sent, or nothing if
    /// none ever was (unbounded silence).
    pub fn duration_since_last_publication(&self, now: i64) -> (r: Option<i64>)
        requires
            self.wf(),
            0 <= now <= MAX_TS,
        ensures
            r is Some <==> self.publog_seq().len() > 0,
            r matches Option::Some(d) ==> d == now - self.publog_seq().last().time,
    {
        let n = self.publog.len();
        if n == 0 {
            Option::None
        } else {
            let t = self.publog[n - 1].time;
            Option::Some(now - t)
        }
    }

    /// The publication guard's verdict for a candidate: not recently
    /// announced, and enough silence since the last announcement.
    #[verifier::rlimit(50)]
    pub fn should_publish(&self, c: &Change, now: i64, min_silence: i64) -> (r: bool)
        requires
            self.wf(),
            0 <= now <= MAX_TS,
            0 <= min_silence <= MAX_TS,
        ensures
            r == spec_should_publish(
                self.publog_seq(),
                c.platform,
                c.id.base@,
                now as int,
                min_silence as int,
            ),
    {
        if self.recently_published(c.platform, &c.id) {
            return false;
        }
        match self.duration_since_last_publication(now) {
            Option::None => true,
            Option::Some(d) => d >= min_silence - SILENCE_SLACK,
        }
    }

    /// The reference instant freshness is measured against.
    fn reference_time(&self, now: i64) -> (r: i64)
        ensures
            r == spec_ref_time(self.obs_seq(), now as int),
    {
        let mut cur: Option<i64> = Option::None;
        let n = self.obs.len();
        for i in 0..n
            invariant
                n == self.obs_seq().len(),
                match cur {
                    Option::None => spec_max_time(self.obs_seq().take(i as int)) is None,
                    Option::Some(m) => spec_max_time(self.obs_seq().take(i as int))
                        == Option::Some(m as int),
                },
        {
            proof {
                assert(self.obs_seq().take(i + 1).drop_last() =~= self.obs_seq().take(i as int));
                assert(self.obs_seq().take(i + 1).last() == self.obs_seq()[i as int]);
            }
            let t = self.obs[i].time;
            cur = match cur {
                Option::None => Option::Some(t),
                Option::Some(m) => if t >= m {
                    Option::Some(t)
                } else {
                    Option::Some(m)
                },
            };
        }
        proof {
            assert(self.obs_seq().take(n as int) =~= self.obs_seq());
        }
        match cur {
            Option::None => now,
            Option::Some(m) => m,
        }
    }

    /// Build the candidate change of one market for one window, from its
    /// newest observation back to whatever the window resolves to.
    fn candidate_for(
        &self,
        platform: Platform,
        id: &MarketId,
        l: &Observation,
        w: DiffDuration,
    ) -> (r: Option<Change>)
        requires
            self.wf(),
            spec_latest(self.obs_seq(), platform, *id) == Option::Some(*l),
        ensures
            r matches Option::Some(c) ==> {
                &&& c.platform == platform
                &&& c.id == l.id
                &&& c.duration == w
                &&& c.p_after == l.prob
                &&& spec_window_before(self.obs_seq(), platform, *id, *l, w) matches Option::Some(b)
                    && c.p_before == b.prob
                &&& match spec_details_lookup(self.details_seq(), platform, *id) {
                    Option::Some(m) => c.url@ == m.url@ && c.title@ == m.title@,
                    Option::None => c.url@ == "?"@ && c.title@ == "??"@,
                }
            },
            r is None <==> spec_window_before(self.obs_seq(), platform, *id, *l, w) is None,
    {
        proof {
            lemma_latest_props(self.obs_seq(), platform, *id);
        }
        let (off, lo, hi) = match w {
            DiffDuration::Hour => (HOUR_SECS, HOUR_BAND_LO, HOUR_BAND_HI),
            DiffDuration::Day => (DAY_SECS, DAY_BAND_LO, DAY_BAND_HI),
            DiffDuration::Week => (WEEK_SECS, WEEK_BAND_LO, WEEK_BAND_HI),
        };
        let target = l.time - off;
        match self.closest_to(platform, id, target, lo, hi) {
            Option::None => Option::None,
            Option::Some(b) => {
                let (url, title) = self.get_details(platform, id);
                Option::Some(
                    Change {
                        platform,
                        id: l.id.duplicate(),
                        duration: w,
                        p_before: b.prob,
                        p_after: l.prob,
                        url,
                        title,
                    },
                )
            },
        }
    }

    /// A change assembled from a market's newest observation, a resolved
    /// window, and the metadata on file is a candidate in the sense of
    /// `spec_is_candidate`, whichever identifier of the market it was
    /// assembled under.
    proof fn lemma_built_candidate(
        &self,
        platform: Platform,
        id: MarketId,
        l: Observation,
        c: Change,
        now: int,
    )
        requires
            self.wf(),
            spec_latest(self.obs_seq(), platform, id) == Option::Some(l),
            spec_fresh(self.obs_seq(), l, now),
            c.platform == platform,
            c.id == l.id,
            c.p_after == l.prob,
            spec_window_before(self.obs_seq(), platform, id, l, c.duration) matches Option::Some(b)
                && c.p_before == b.prob,
            match spec_details_lookup(self.details_seq(), platform, id) {
                Option::Some(m) => c.url@ == m.url@ && c.title@ == m.title@,
                Option::None => c.url@ == "?"@ && c.title@ == "??"@,
            },
        ensures
            spec_is_candidate(self.obs_seq(), self.details_seq(), c, now),
    {
        let obs = self.obs_seq();
        lemma_latest_props(obs, platform, id);
        assert(spec_id_eq(id, c.id));
        lemma_latest_key_eq(obs, platform, id, c.id);
        lemma_closest_key_eq(
            obs,
            platform,
            id,
            c.id,
            l.time - window_offset(c.duration),
            window_band_lo(c.duration),
            window_band_hi(c.duration),
        );
        lemma_details_key_eq(self.details_seq(), platform, id, c.id);
    }

    /// A candidate whose market first appears at position `i` of the
    /// store runs up to that market's newest observation, and its window
    /// resolves the same observation under either identifier.
    proof fn lemma_same_key_candidate(
        &self,
        platform: Platform,
        id: MarketId,
        l: Observation,
        c2: Change,
        i: int,
        now: int,
    )
        requires
            self.wf(),
            0 <= i < self.obs_seq().len(),
            platform == self.obs_seq()[i].platform,
            id == self.obs_seq()[i].id,
            spec_latest(self.obs_seq(), platform, id) == Option::Some(l),
            spec_is_candidate(self.obs_seq(), self.details_seq(), c2, now),
            key_seen(self.obs_seq(), c2, i + 1),
            !key_seen(self.obs_seq(), c2, i),
        ensures
            c2.id == l.id,
            c2.p_after == l.prob,
            spec_fresh(self.obs_seq(), l, now),
            spec_window_before(self.obs_seq(), platform, id, l, c2.duration) matches Option::Some(
                b,
            ) && c2.p_before == b.prob,
    {
        let obs = self.obs_seq();
        let k = choose|k: int| 0 <= k < i + 1 && obs_matches(#[trigger] obs[k], c2.platform, c2.id);
        assert(k == i);
        assert(obs_matches(obs[i], c2.platform, c2.id));
        assert(spec_id_eq(id, c2.id));
        lemma_latest_key_eq(obs, platform, id, c2.id);
        assert(spec_latest(obs, c2.platform, c2.id) == Option::Some(l));
        lemma_closest_key_eq(
            obs,
            platform,
            id,
            c2.id,
            l.time - window_offset(c2.duration),
            window_band_lo(c2.duration),
            window_band_hi(c2.duration),
        );
    }

    /// The single most newsworthy eligible candidate change across all
    /// tracked markets, if any move clears the significance floor. For
    /// every market with a fresh newest observation, up to three
    /// candidates (hour, day, week window) are weighed; the result ranks
    /// at least as significant as every eligible candidate, with ties
    /// going to an unspecified one of the tied candidates.
    #[verifier::rlimit(100)]
    pub fn most_noteworthy_change(&self, now: i64) -> (r: Option<Change>)
        requires
            self.wf(),
            0 <= now <= MAX_TS,
        ensures
            r matches Option::Some(c) ==> {
                &&& spec_is_candidate(self.obs_seq(), self.details_seq(), c, now as int)
                &&& spec_eligible(c)
                &&& forall|c2: Change|
                    spec_is_candidate(self.obs_seq(), self.details_seq(), c2, now as int)
                        && spec_eligible(c2) ==> spec_significance(c2) <= spec_significance(c)
            },
            r is None ==> forall|c2: Change|
                spec_is_candidate(self.obs_seq(), self.details_seq(), c2, now as int)
                    ==> !spec_eligible(c2),
    {
        let ghost obs = self.obs_seq();
        let ghost det = self.details_seq();
        let ref_time = self.reference_time(now);
        let mut best: Option<Change> = Option::None;
        let mut best_sig: u64 = 0;
        let n = self.obs.len();
        for i in 0..n
            invariant
                self.wf(),
                0 <= now <= MAX_TS,
                obs == self.obs_seq(),
                det == self.details_seq(),
                n == obs.len(),
                ref_time == spec_ref_time(obs, now as int),
                best matches Option::Some(cb) ==> {
                    &&& spec_is_candidate(obs, det, cb, now as int)
                    &&& spec_eligible(cb)
                    &&& best_sig == spec_significance(cb)
                },
                best is None ==> forall|c2: Change|
                    spec_is_candidate(obs, det, c2, now as int) && key_seen(obs, c2, i as int)
                        ==> !spec_eligible(c2),
                best matches Option::Some(cb) ==> forall|c2: Change|
                    spec_is_candidate(obs, det, c2, now as int) && spec_eligible(c2) && key_seen(
                        obs,
                        c2,
                        i as int,
                    ) ==> spec_significance(c2) <= spec_significance(cb),
        {
            let mut seen = false;
            let mut j: usize = 0;
            while j < i
                invariant
                    j <= i < n,
                    n == obs.len(),
                    obs == self.obs_seq(),
                    seen <==> exists|k: int|
                        0 <= k < j && obs_matches(
                            #[trigger] obs[k],
                            obs[i as int].platform,
                            obs[i as int].id,
                        ),
                decreases i - j,
            {
                if self.obs[j].platform == self.obs[i].platform && self.obs[j].id.eq(
                    &self.obs[i].id,
                ) {
                    seen = true;
                }
                j = j + 1;
            }
            if !seen {
                let platform = self.obs[i].platform;
                let id = self.obs[i].id.duplicate();
                proof {
                    lemma_latest_props(obs, platform, id);
                    assert(obs_matches(obs[i as int], platform, id));
                }
                match self.latest(platform, &id) {
                    Option::None => {
                        proof {
                            assert(false);
                        }
                    },
                    Option::Some(l) => {
                        proof {
                            lemma_latest_key_eq(obs, platform, id, l.id);
                        }
                        if l.time + FRESH_SLACK >= ref_time {
                            let c_hour = self.candidate_for(platform, &id, &l, DiffDuration::Hour);
                            let ghost g_hour = c_hour;
                            if let Option::Some(c) = c_hour {
                                proof {
                                    self.lemma_built_candidate(platform, id, l, c, now as int);
                                }
                                let sig = c.significance();
                                let elig = c.eligible();
                                let take_it = elig && match &best {
                                    Option::None => true,
                                    Option::Some(_) => sig > best_sig,
                                };
                                if take_it {
                                    best = Option::Some(c);
                                    best_sig = sig;
                                }
                            }
                            assert(g_hour matches Option::Some(ch) ==> spec_eligible(ch)
                                ==> (best matches Option::Some(cb) && spec_significance(ch)
                                <= best_sig));
                            let c_day = self.candidate_for(platform, &id, &l, DiffDuration::Day);
                            let ghost g_day = c_day;
                            if let Option::Some(c) = c_day {
                                proof {
                                    self.lemma_built_candidate(platform, id, l, c, now as int);
                                }
                                let sig = c.significance();
                                let elig = c.eligible();
                                let take_it = elig && match &best {
                                    Option::None => true,
                                    Option::Some(_) => sig > best_sig,
                                };
                                if take_it {
                                    best = Option::Some(c);
                                    best_sig = sig;
                                }
                            }
                            assert(g_hour matches Option::Some(ch) ==> spec_eligible(ch)
                                ==> (best matches Option::Some(cb) && spec_significance(ch)
                                <= best_sig));
                            assert(g_day matches Option::Some(cd) ==> spec_eligible(cd)
                                ==> (best matches Option::Some(cb) && spec_significance(cd)
                                <= best_sig));
                            let c_week = self.candidate_for(platform, &id, &l, DiffDuration::Week);
                            let ghost g_week = c_week;
                            if let Option::Some(c) = c_week {
                                proof {
                                    self.lemma_built_candidate(platform, id, l, c, now as int);
                                }
                                let sig = c.significance();
                                let elig = c.eligible();
                                let take_it = elig && match &best {
                                    Option::None => true,
                                    Option::Some(_) => sig > best_sig,
                                };
                                if take_it {
                                    best = Option::Some(c);
                                    best_sig = sig;
                                }
                            }
                            proof {
                                assert forall|c2: Change|
                                    spec_is_candidate(obs, det, c2, now as int) && key_seen(
                                        obs,
                                        c2,
                                        i + 1,
                                    ) && !key_seen(obs, c2, i as int) implies {
                                    &&& spec_eligible(c2) ==> (best matches Option::Some(cb)
                                        && spec_significance(c2) <= best_sig)
                                } by {
                                    self.lemma_same_key_candidate(
                                        platform,
                                        id,
                                        l,
                                        c2,
                                        i as int,
                                        now as int,
                                    );
                                    match c2.duration {
                                        DiffDuration::Hour => {
                                            assert(g_hour matches Option::Some(cw)
                                                && cw.p_before == c2.p_before && cw.p_after
                                                == c2.p_after && cw.duration == c2.duration);
                                        },
                                        DiffDuration::Day => {
                                            assert(g_day matches Option::Some(cw) && cw.p_before
                                                == c2.p_before && cw.p_after == c2.p_after
                                                && cw.duration == c2.duration);
                                        },
                                        DiffDuration::Week => {
                                            assert(g_week matches Option::Some(cw) && cw.p_before
                                                == c2.p_before && cw.p_after == c2.p_after
                                                && cw.duration == c2.duration);
                                        },
                                    }
                                }
                            }
                        } else {
                            proof {
                                assert forall|c2: Change|
                                    spec_is_candidate(obs, det, c2, now as int) && key_seen(
                                        obs,
                                        c2,
                                        i + 1,
                                    ) && !key_seen(obs, c2, i as int) implies false by {
                                    self.lemma_same_key_candidate(
                                        platform,
                                        id,
                                        l,
                                        c2,
                                        i as int,
                                        now as int,
                                    );
                                    assert(!spec_fresh(obs, l, now as int));
                                }
                            }
                        }
                    },
                }
            } else {
                proof {
                    assert forall|c2: Change| key_seen(obs, c2, i + 1) && obs_matches(
                        obs[i as int],
                        c2.platform,
                        c2.id,
                    ) implies key_seen(obs, c2, i as int) by {
                        let k = choose|k: int|
                            0 <= k < i && obs_matches(
                                #[trigger] obs[k],
                                obs[i as int].platform,
                                obs[i as int].id,
                            );
                        assert(obs_matches(obs[k], c2.platform, c2.id));
                    }
                    assert forall|c2: Change| key_seen(obs, c2, i + 1) implies key_seen(
                        obs,
                        c2,
                        i as int,
                    ) by {
                        let k = choose|k: int|
                            0 <= k < i + 1 && obs_matches(#[trigger] obs[k], c2.platform, c2.id);
                        if k < i {
                        } else {
                            assert(obs_matches(obs[i as int], c2.platform, c2.id));
                        }
                    }
                }
            }
        }
        proof {
            assert forall|c2: Change| spec_is_candidate(obs, det, c2, now as int) implies key_seen(
                obs,
                c2,
                n as int,
            ) by {
                lemma_latest_props(obs, c2.platform, c2.id);
            }
        }
        best
    }

    /// Record that a candidate was actually announced, now. Sub-answer
    /// suffixes are stripped: the log keys on platform and base identifier.
    #[verifier::rlimit(50)]
    pub fn log_publication(&mut self, c: &Change, now: i64)
        requires
            old(self).wf(),
            0 <= now <= MAX_TS,
            old(self).publog_seq().len() > 0 ==> old(self).publog_seq().last().time <= now,
        ensures
            final(self).wf(),
            final(self).publog_seq() == old(self).publog_seq().push(
                PublicationRecord { time: now, platform: c.platform, base: c.id.base },
            ),
            final(self).obs_seq() == old(self).obs_seq(),
            final(self).details_seq() == old(self).details_seq(),
    {
        let rec = PublicationRecord { time: now, platform: c.platform, base: c.id.base.clone() };
        self.publog.push(rec);
        proof {
            assert(forall|i: int|
                0 <= i < old(self).publog@.len() ==> self.publog@[i] == #[trigger] old(
                    self,
                ).publog@[i]);
            assert forall|i: int, j: int| 0 <= i < j < self.publog@.len() implies (
            #[trigger] self.publog@[i]).time <= (#[trigger] self.publog@[j]).time by {
                if j < old(self).publog@.len() {
                    assert(old(self).publog@[i].time <= old(self).publog@[j].time);
                } else if i < old(self).publog@.len() - 1 {
                    assert(old(self).publog@[i].time <= old(self).publog@.last().time);
                } else {
                    assert(self.publog@[i] == old(self).publog@.last());
                }
            }
        }
    }

    /// Archive a new probability reading and its display metadata, and
    /// return the probability that was most recent for this market before
    /// the insert. A probability above one is ignored entirely: nothing is
    /// stored and nothing is returned.
    #[verifier::rlimit(50)]
    pub fn update_prob(
        &mut self,
        time: i64,
        platform: Platform,
        id: MarketId,
        prob: u32,
        url: String,
        title: String,
    ) -> (prev: Option<u32>)
        requires
            old(self).wf(),
            0 <= time <= MAX_TS,
        ensures
            final(self).wf(),
            final(self).publog_seq() == old(self).publog_seq(),
            prob <= crate::change::PROB_ONE_BP ==> {
                &&& final(self).obs_seq() == old(self).obs_seq().push(
                    Observation { platform, id, prob, time },
                )
                &&& final(self).details_seq() == old(self).details_seq().push(
                    MarketMetadata { platform, id, title, url },
                )
                &&& prev == spec_previous_probability(old(self).obs_seq(), platform, id)
            },
            prob > crate::change::PROB_ONE_BP ==> {
                &&& final(self).obs_seq() == old(self).obs_seq()
                &&& final(self).details_seq() == old(self).details_seq()
                &&& prev == Option::<u32>::None
            },
    {
        if prob > crate::change::PROB_ONE_BP {
            return Option::None;
        }
        let prev = match self.latest(platform, &id) {
            Option::None => Option::None,
            Option::Some(o) => Option::Some(o.prob),
        };
        let meta = MarketMetadata { platform, id: id.duplicate(), title, url };
        self.obs.push(Observation { platform, id, prob, time });
        self.details.push(meta);
        proof {
            assert(self.obs@.drop_last() == old(self).obs@);
            assert(forall|i: int|
                0 <= i < old(self).obs@.len() ==> self.obs@[i] == #[trigger] old(self).obs@[i]);
            assert(forall|i: int|
                0 <= i < old(self).publog@.len() ==> self.publog@[i] == #[trigger] old(
                    self,
                ).publog@[i]);
        }
        prev
    }

    /// Ingest one fetched batch: store every listing whose probability
    /// lies within zero and one, stamped with the given instant, and
    /// discard the rest.
    pub fn ingest(&mut self, batch: Vec<crate::platforms::MarketStatus>, time: i64)
        requires
            old(self).wf(),
            0 <= time <= MAX_TS,
        ensures
            final(self).wf(),
            final(self).obs_seq() == spec_ingest_obs(old(self).obs_seq(), batch@, time),
            final(self).details_seq() == spec_ingest_details(old(self).details_seq(), batch@),
            final(self).publog_seq() == old(self).publog_seq(),
    {
        let n = batch.len();
        for i in 0..n
            invariant
                self.wf(),
                0 <= time <= MAX_TS,
                n == batch@.len(),
                self.obs_seq() == spec_ingest_obs(old(self).obs_seq(), batch@.take(i as int), time),
                self.details_seq() == spec_ingest_details(
                    old(self).details_seq(),
                    batch@.take(i as int),
                ),
                self.publog_seq() == old(self).publog_seq(),
        {
            proof {
                assert(batch@.take(i + 1).drop_last() =~= batch@.take(i as int));
                assert(batch@.take(i + 1).last() == batch@[i as int]);
            }
            let s = &batch[i];
            if 0 <= s.prob && s.prob <= crate::change::PROB_ONE_BP as i64 {
                let _prev = self.update_prob(
                    time,
                    s.platform,
                    s.id.duplicate(),
                    s.prob as u32,
                    s.url.clone(),
                    s.title.clone(),
                );
            }
        }
        proof {
            assert(batch@.take(n as int) =~= batch@);
        }
    }

    /// The retention sweep: drop every observation older than the
    /// horizon, touching nothing newer and nothing in the other tables.
    pub fn retire_older_than(&mut self, horizon: i64)
        requires
            old(self).wf(),
        ensures
            final(self).wf(),
            final(self).obs_seq() == spec_retained(old(self).obs_seq(), horizon as int),
            final(self).details_seq() == old(self).details_seq(),
            final(self).publog_seq() == old(self).publog_seq(),
    {
        let mut kept: Vec<Observation> = Vec::new();
        let n = self.obs.len();
        for i in 0..n
            invariant
                self.wf(),
                n == self.obs_seq().len(),
                kept@ == spec_retained(self.obs_seq().take(i as int), horizon as int),
                forall|k: int|
                    0 <= k < kept@.len() ==> ((#[trigger] kept@[k]).prob
                        <= crate::change::PROB_ONE_BP && 0 <= kept@[k].time <= MAX_TS),
        {
            proof {
                assert(self.obs_seq().take(i + 1).drop_last() =~= self.obs_seq().take(i as int));
                assert(self.obs_seq().take(i + 1).last() == self.obs_seq()[i as int]);
            }
            if self.obs[i].time >= horizon {
                let o = self.obs[i].duplicate();
                kept.push(o);
            }
        }
        proof {
            assert(self.obs_seq().take(n as int) =~= self.obs_seq());
        }
        self.obs = kept;
    }

    /// One decide-and-publish pass: the most noteworthy eligible change,
    /// but only if the publication guard lets it through. A result means
    /// "announce this, then record it"; nothing means the run stays
    /// silent.
    pub fn decide_publication(&self, now: i64, min_silence: i64) -> (r: Option<Change>)
        requires
            self.wf(),
            0 <= now <= MAX_TS,
            0 <= min_silence <= MAX_TS,
        ensures
            r matches Option::Some(c) ==> {
                &&& spec_is_candidate(self.obs_seq(), self.details_seq(), c, now as int)
                &&& spec_eligible(c)
                &&& forall|c2: Change|
                    spec_is_candidate(self.obs_seq(), self.details_seq(), c2, now as int)
                        && spec_eligible(c2) ==> spec_significance(c2) <= spec_significance(c)
                &&& spec_should_publish(
                    self.publog_seq(),
                    c.platform,
                    c.id.base@,
                    now as int,
                    min_silence as int,
                )
            },
            r is None ==> (forall|c2: Change|
                spec_is_candidate(self.obs_seq(), self.details_seq(), c2, now as int)
                    ==> !spec_eligible(c2)) || (exists|c: Change|
                {
                    &&& spec_is_candidate(self.obs_seq(), self.details_seq(), c, now as int)
                    &&& spec_eligible(c)
                    &&& forall|c2: Change|
                        spec_is_candidate(self.obs_seq(), self.details_seq(), c2, now as int)
                            && spec_eligible(c2) ==> spec_significance(c2) <= spec_significance(c)
                    &&& !spec_should_publish(
                        self.publog_seq(),
                        c.platform,
                        c.id.base@,
                        now as int,
                        min_silence as int,
                    )
                }),
    {
        match self.most_noteworthy_change(now) {
            Option::None => Option::None,
            Option::Some(c) => {
                if self.should_publish(&c, now, min_silence) {
                    Option::Some(c)
                } else {
                    Option::None
                }
            },
        }
    }
}

/// Dedup idempotence: the moment a candidate's publication is recorded,
/// the guard sees its market as recently published, and vetoes publishing
/// it, or any sub-answer variant of it, again.
pub proof fn lemma_dedup_idempotent(
    log: Seq<PublicationRecord>,
    rec: PublicationRecord,
    platform: Platform,
    base: Seq<char>,
    now: int,
    min_silence: int,
)
    requires
        rec.platform == platform,
        rec.base@ == base,
    ensures
        spec_recently_published(log.push(rec), platform, base),
        !spec_should_publish(log.push(rec), platform, base, now, min_silence),
{
    let s = log.push(rec);
    assert(s[s.len() - 1] == rec);
    assert(pub_window_start(s) <= s.len() - 1 < s.len());
}

/// A market none of whose announcements remain in the tracked window is
/// no longer recently published: records age out.
pub proof fn lemma_dedup_ages_out(log: Seq<PublicationRecord>, platform: Platform, base: Seq<char>)
    requires
        forall|i: int|
            pub_window_start(log) <= i < log.len() ==> !((#[trigger] log[i]).platform == platform
                && log[i].base@ == base),
    ensures
        !spec_recently_published(log, platform, base),
{
}

/// Silence enforcement: while the last announcement lies less than the
/// minimum silence (minus the jitter slack) in the past, nothing is
/// published; once the minimum silence has fully elapsed, only the dedup
/// check can still veto a candidate.
pub proof fn lemma_silence_enforced(
    log: Seq<PublicationRecord>,
    platform: Platform,
    base: Seq<char>,
    now: int,
    min_silence: int,
)
    requires
        log.len() > 0,
    ensures
        now - log.last().time < min_silence - SILENCE_SLACK ==> !spec_should_publish(
            log,
            platform,
            base,
            now,
            min_silence,
        ),
        now - log.last().time >= min_silence && !spec_recently_published(log, platform, base)
            ==> spec_should_publish(log, platform, base, now, min_silence),
{
}

/// Round trip: appending an observation at least as new as everything
/// stored for its market makes it exactly what `latest` then finds.
pub proof fn lemma_append_latest_round_trip(s: Seq<Observation>, o: Observation)
    requires
        forall|j: int|
            0 <= j < s.len() && obs_matches(#[trigger] s[j], o.platform, o.id) ==> s[j].time
                <= o.time,
    ensures
        spec_latest(s.push(o), o.platform, o.id) == Option::Some(o),
{
    let s2 = s.push(o);
    assert(s2.drop_last() =~= s);
    assert(s2.last() == o);
    assert(spec_id_eq(o.id, o.id));
    lemma_latest_props(s, o.platform, o.id);
}

/// Window resolution absence: a market with exactly one stored
/// observation is its own newest observation, and no lookback window
/// resolves a comparison point for it, so it yields no candidate.
pub proof fn lemma_single_observation_no_window(
    s: Seq<Observation>,
    platform: Platform,
    id: MarketId,
    i: int,
    d: DiffDuration,
)
    requires
        0 <= i < s.len(),
        obs_matches(s[i], platform, id),
        forall|j: int| 0 <= j < s.len() && j != i ==> !obs_matches(#[trigger] s[j], platform, id),
    ensures
        spec_latest(s, platform, id) == Option::Some(s[i]),
        spec_window_before(s, platform, id, s[i], d) is None,
{
    lemma_latest_props(s, platform, id);
    let l = spec_latest(s, platform, id)->Some_0;
    let j = choose|j: int| 0 <= j < s.len() && #[trigger] s[j] == l;
    assert(j == i);
    let target = s[i].time - window_offset(d);
    let lo = window_band_lo(d);
    let hi = window_band_hi(d);
    lemma_closest_props(s, platform, id, target, lo, hi);
    if spec_closest_to(s, platform, id, target, lo, hi) is Some {
        let b = spec_closest_to(s, platform, id, target, lo, hi)->Some_0;
        let k = choose|k: int| 0 <= k < s.len() && #[trigger] s[k] == b;
        assert(k == i);
        assert(window_band_hi(d) < window_offset(d));
        assert(false);
    }
}

/// Window resolution absence, stated over candidates: a market with
/// exactly one stored observation contributes no candidate change at all,
/// whatever its window, metadata or the current instant.
pub proof fn lemma_single_observation_no_candidate(
    s: Seq<Observation>,
    details: Seq<MarketMetadata>,
    platform: Platform,
    id: MarketId,
    i: int,
    c: Change,
    now: int,
)
    requires
        0 <= i < s.len(),
        obs_matches(s[i], platform, id),
        forall|j: int| 0 <= j < s.len() && j != i ==> !obs_matches(#[trigger] s[j], platform, id),
        c.platform == platform,
        spec_id_eq(c.id, id),
    ensures
        !spec_is_candidate(s, details, c, now),
{
    lemma_single_observation_no_window(s, platform, id, i, c.duration);
    lemma_latest_key_eq(s, platform, id, c.id);
    lemma_closest_key_eq(
        s,
        platform,
        id,
        c.id,
        s[i].time - window_offset(c.duration),
        window_band_lo(c.duration),
        window_band_hi(c.duration),
    );
}

} // verus!
