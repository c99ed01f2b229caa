//! Seeding rules: ratio, time and inactivity limits for seeding torrents, and
//! the action to take on a torrent that reached one.

use vstd::prelude::*;

use crate::settings::schema::{Ratio, SeedingAction, SeedingSettings, TorrentOverrides};
use crate::text::{decimal_string, decimal_text};

verus! {

/// What the rules need to know of a seeding torrent.
#[derive(Debug, Clone)]
pub struct SeedingTorrentInfo {
    pub id: String,
    pub name: String,
    /// Current share ratio (uploaded / downloaded).
    pub ratio: Ratio,
    /// Seconds spent seeding since completion.
    pub seed_time_secs: u64,
    /// Seconds since the last upload activity.
    pub inactive_time_secs: u64,
    /// Current upload speed in bytes per second (any upload at all is non-zero).
    pub upload_speed: u64,
    /// Per-torrent overrides, if any.
    pub overrides: Option<TorrentOverrides>,
}

/// Why a seeding limit was triggered.
#[derive(Debug, Clone, PartialEq, Eq, Structural)]
pub enum SeedingLimitReason {
    RatioReached { current: Ratio, limit: Ratio },
    TimeLimitReached { minutes_seeded: u64, limit_minutes: u64 },
    InactiveTimeout { inactive_minutes: u64, limit_minutes: u64 },
}

/// Action to take on a torrent that hit a seeding limit.
#[derive(Debug, Clone)]
pub struct SeedingRuleAction {
    pub torrent_id: String,
    pub torrent_name: String,
    pub action: SeedingAction,
    pub reason: SeedingLimitReason,
}

/// The ratio limit in force: the torrent's own, else the global one.
pub open spec fn ratio_limit_of(t: SeedingTorrentInfo, g: SeedingSettings) -> Option<Ratio> {
    match t.overrides {
        Some(o) => if o.ratio_limit is Some {
            o.ratio_limit
        } else {
            g.global_ratio_limit
        },
        None => g.global_ratio_limit,
    }
}

/// The seeding-time limit in force (minutes): the torrent's own, else the global one.
pub open spec fn time_limit_of(t: SeedingTorrentInfo, g: SeedingSettings) -> Option<u64> {
    match t.overrides {
        Some(o) => if o.time_limit_mins is Some {
            o.time_limit_mins
        } else {
            g.global_time_limit_mins
        },
        None => g.global_time_limit_mins,
    }
}

/// The limit a torrent hit, checked in order ratio, time, inactivity; at most one.
pub open spec fn limit_reason(t: SeedingTorrentInfo, g: SeedingSettings) -> Option<SeedingLimitReason> {
    let seeded = (t.seed_time_secs / 60) as u64;
    let inactive = (t.inactive_time_secs / 60) as u64;
    if ratio_limit_of(t, g) is Some && t.ratio.thousandths >= ratio_limit_of(t, g)->0.thousandths {
        Some(SeedingLimitReason::RatioReached { current: t.ratio, limit: ratio_limit_of(t, g)->0 })
    } else if time_limit_of(t, g) is Some && seeded >= time_limit_of(t, g)->0 {
        Some(SeedingLimitReason::TimeLimitReached { minutes_seeded: seeded, limit_minutes: time_limit_of(t, g)->0 })
    } else if g.inactive_timeout_mins is Some && inactive >= g.inactive_timeout_mins->0
        && t.upload_speed == 0 {
        Some(
            SeedingLimitReason::InactiveTimeout {
                inactive_minutes: inactive,
                limit_minutes: g.inactive_timeout_mins->0,
            },
        )
    } else {
        None
    }
}

/// The actions for a list of torrents, in list order: one for each torrent
/// that hit a limit.
pub open spec fn seeding_actions(ts: Seq<SeedingTorrentInfo>, g: SeedingSettings) -> Seq<SeedingRuleAction>
    decreases ts.len(),
{
    if ts.len() == 0 {
        seq![]
    } else {
        let p = seeding_actions(ts.subrange(0, ts.len() - 1), g);
        let t = ts[ts.len() - 1];
        match limit_reason(t, g) {
            Some(reason) => p.push(
                SeedingRuleAction { torrent_id: t.id, torrent_name: t.name, action: g.action_on_limit, reason },
            ),
            None => p,
        }
    }
}

fn ratio_limit(t: &SeedingTorrentInfo, g: &SeedingSettings) -> (r: Option<Ratio>)
    ensures
        r == ratio_limit_of(*t, *g),
{
    match &t.overrides {
        Some(o) => match o.ratio_limit {
            Some(l) => Some(l),
            None => g.global_ratio_limit,
        },
        None => g.global_ratio_limit,
    }
}

fn time_limit(t: &SeedingTorrentInfo, g: &SeedingSettings) -> (r: Option<u64>)
    ensures
        r == time_limit_of(*t, *g),
{
    match &t.overrides {
        Some(o) => match o.time_limit_mins {
            Some(l) => Some(l),
            None => g.global_time_limit_mins,
        },
        None => g.global_time_limit_mins,
    }
}

/// The limit one torrent hit, if any.
pub fn check_limits(t: &SeedingTorrentInfo, g: &SeedingSettings) -> (r: Option<SeedingLimitReason>)
    ensures
        r == limit_reason(*t, *g),
{
    if let Some(limit) = ratio_limit(t, g) {
        if t.ratio.thousandths >= limit.thousandths {
            return Some(SeedingLimitReason::RatioReached { current: t.ratio, limit });
        }
    }
    let seeded = t.seed_time_secs / 60;
    if let Some(limit) = time_limit(t, g) {
        if seeded >= limit {
            return Some(SeedingLimitReason::TimeLimitReached { minutes_seeded: seeded, limit_minutes: limit });
        }
    }
    let inactive = t.inactive_time_secs / 60;
    if let Some(timeout) = g.inactive_timeout_mins {
        if inactive >= timeout && t.upload_speed == 0 {
            return Some(SeedingLimitReason::InactiveTimeout { inactive_minutes: inactive, limit_minutes: timeout });
        }
    }
    None
}

/// Evaluate the seeding rules for a list of seeding torrents: the actions for
/// the torrents that hit a limit, in list order, at most one per torrent.
pub fn evaluate_seeding_rules(torrents: &[SeedingTorrentInfo], global_settings: &SeedingSettings) -> (r: Vec<
    SeedingRuleAction,
>)
    ensures
        r@ == seeding_actions(torrents@, *global_settings),
{
    let mut actions: Vec<SeedingRuleAction> = Vec::new();
    let mut i: usize = 0;
    while i < torrents.len()
        invariant
            i <= torrents@.len(),
            actions@ == seeding_actions(torrents@.subrange(0, i as int), *global_settings),
        decreases torrents@.len() - i,
    {
        let t = &torrents[i];
        assert(torrents@.subrange(0, i + 1).subrange(0, i as int) =~= torrents@.subrange(0, i as int));
        match check_limits(t, global_settings) {
            Some(reason) => {
                actions.push(
                    SeedingRuleAction {
                        torrent_id: t.id.clone(),
                        torrent_name: t.name.clone(),
                        action: global_settings.action_on_limit,
                        reason,
                    },
                );
            },
            None => {},
        }
        i = i + 1;
    }
    assert(torrents@.subrange(0, torrents@.len() as int) =~= torrents@);
    actions
}

/// The number `n` thousandths rounded to hundredths, as "int.frac" with two
/// decimals.
pub open spec fn two_decimals(thousandths: nat) -> Seq<char> {
    let h = (thousandths + 5) / 10;
    let frac = h % 100;
    decimal_text(h / 100) + seq!['.'] + if frac < 10 {
        seq!['0'] + decimal_text(frac)
    } else {
        decimal_text(frac)
    }
}

fn two_decimals_string(thousandths: u64) -> (r: String)
    ensures
        r@ == two_decimals(thousandths as nat),
{
    let h = thousandths / 10 + if thousandths % 10 >= 5 { 1u64 } else { 0u64 };
    assert(h == (thousandths + 5) / 10);
    let mut s = decimal_string(h / 100);
    s.append(".");
    let frac = h % 100;
    if frac < 10 {
        s.append("0");
    }
    let f = decimal_string(frac);
    s.append(f.as_str());
    proof {
        reveal_strlit(".");
        reveal_strlit("0");
    }
    s
}

/// What a reason reads as in the UI.
pub open spec fn reason_text(r: SeedingLimitReason) -> Seq<char> {
    match r {
        SeedingLimitReason::RatioReached { current, limit } => "Ratio "@ + two_decimals(
            current.thousandths as nat,
        ) + " reached limit "@ + two_decimals(limit.thousandths as nat),
        SeedingLimitReason::TimeLimitReached { minutes_seeded, limit_minutes } => "Seeded "@
            + decimal_text(minutes_seeded as nat) + "m, limit "@ + decimal_text(limit_minutes as nat)
            + "m"@,
        SeedingLimitReason::InactiveTimeout { inactive_minutes, limit_minutes } => "Inactive "@
            + decimal_text(inactive_minutes as nat) + "m, timeout "@ + decimal_text(
            limit_minutes as nat,
        ) + "m"@,
    }
}

impl SeedingLimitReason {
    /// The reason as the UI shows it, e.g. "Seeded 90m, limit 60m".
    pub fn to_display_string(&self) -> (r: String)
        ensures
            r@ == reason_text(*self),
    {
        match self {
            SeedingLimitReason::RatioReached { current, limit } => {
                let mut s = String::from_str("Ratio ");
                s.append(two_decimals_string(current.thousandths).as_str());
                s.append(" reached limit ");
                s.append(two_decimals_string(limit.thousandths).as_str());
                s
            },
            SeedingLimitReason::TimeLimitReached { minutes_seeded, limit_minutes } => {
                let mut s = String::from_str("Seeded ");
                s.append(decimal_string(*minutes_seeded).as_str());
                s.append("m, limit ");
                s.append(decimal_string(*limit_minutes).as_str());
                s.append("m");
                s
            },
            SeedingLimitReason::InactiveTimeout { inactive_minutes, limit_minutes } => {
                let mut s = String::from_str("Inactive ");
                s.append(decimal_string(*inactive_minutes).as_str());
                s.append("m, timeout ");
                s.append(decimal_string(*limit_minutes).as_str());
                s.append("m");
                s
            },
        }
    }
}

/// Each torrent gets at most one action, so there are never more actions than
/// torrents, and a torrent under every limit gets none.
pub proof fn lemma_at_most_one_action_each(ts: Seq<SeedingTorrentInfo>, g: SeedingSettings)
    ensures
        seeding_actions(ts, g).len() <= ts.len(),
        (forall|i: int| 0 <= i < ts.len() ==> limit_reason(#[trigger] ts[i], g) is None)
            ==> seeding_actions(ts, g).len() == 0,
    decreases ts.len(),
{
    if ts.len() > 0 {
        let init = ts.subrange(0, ts.len() - 1);
        lemma_at_most_one_action_each(init, g);
        if forall|i: int| 0 <= i < ts.len() ==> limit_reason(#[trigger] ts[i], g) is None {
            assert forall|i: int| 0 <= i < init.len() implies limit_reason(#[trigger] init[i], g) is None by {
                assert(init[i] == ts[i]);
            }
            assert(limit_reason(ts[ts.len() - 1], g) is None);
        }
    }
}

/// A per-torrent ratio limit overrides the global one, whatever the global one is.
pub proof fn lemma_override_ratio_wins(t: SeedingTorrentInfo, g: SeedingSettings, l: Ratio)
    requires
        t.overrides matches Some(o) && o.ratio_limit == Some(l),
    ensures
        ratio_limit_of(t, g) == Some(l),
        t.ratio.thousandths >= l.thousandths ==> limit_reason(t, g) == Some(
            SeedingLimitReason::RatioReached { current: t.ratio, limit: l },
        ),
{
}

/// The ratio limit a torrent's own overrides set, else the global one.
pub open spec fn effective_ratio_limit(t: SeedingTorrentInfo, g: SeedingSettings) -> Option<Ratio> {
    if t.overrides matches Some(o) && o.ratio_limit is Some {
        t.overrides->0.ratio_limit
    } else {
        g.global_ratio_limit
    }
}

/// Whether a torrent's share ratio has reached the ratio limit in force.
pub open spec fn ratio_reached(t: SeedingTorrentInfo, g: SeedingSettings) -> bool {
    effective_ratio_limit(t, g) matches Some(l) && t.ratio.thousandths >= l.thousandths
}

/// A per-torrent seeding-time limit overrides the global one: when the
/// torrent's overrides set `l` minutes and its ratio limit is not reached, it
/// stops on time exactly when it has seeded `l` whole minutes (reporting `l`),
/// and the global time limit plays no part, whatever it is.
pub proof fn lemma_override_time_wins(t: SeedingTorrentInfo, g: SeedingSettings, other_global: Option<u64>, l: u64)
    requires
        t.overrides matches Some(o) && o.time_limit_mins == Some(l),
        !ratio_reached(t, g),
    ensures
        t.seed_time_secs / 60 >= l ==> limit_reason(t, g) == Some(
            SeedingLimitReason::TimeLimitReached { minutes_seeded: (t.seed_time_secs / 60) as u64, limit_minutes: l },
        ),
        t.seed_time_secs / 60 < l ==> !(limit_reason(t, g) matches Some(SeedingLimitReason::TimeLimitReached { .. })),
        limit_reason(t, g) == limit_reason(t, SeedingSettings { global_time_limit_mins: other_global, ..g }),
{
}

/// Limits are checked in order ratio, time, inactivity, each as the torrent's
/// own or the global setting gives it: a reached ratio limit always wins; a
/// torrent without any limit in force never stops; inactivity only counts
/// while nothing is uploaded.
pub proof fn lemma_limit_order(t: SeedingTorrentInfo, g: SeedingSettings)
    ensures
        ratio_reached(t, g) ==> limit_reason(t, g) == Some(
            SeedingLimitReason::RatioReached { current: t.ratio, limit: effective_ratio_limit(t, g)->0 },
        ),
        effective_ratio_limit(t, g) is None && !(t.overrides matches Some(o) && o.time_limit_mins is Some)
            && g.global_time_limit_mins is None && g.inactive_timeout_mins is None ==> limit_reason(t, g) is None,
        t.upload_speed > 0 ==> !(limit_reason(t, g) matches Some(SeedingLimitReason::InactiveTimeout { .. })),
        limit_reason(t, g) matches Some(SeedingLimitReason::RatioReached { .. }) ==> ratio_reached(t, g),
{
}

} // verus!
