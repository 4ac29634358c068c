//! The scan: what is running right now that Quiet Mode could park but the
//! saved targets do not cover, and folding accepted finds back into them.

use vstd::prelude::*;
use crate::catalogue::Risk;
use crate::plan::Capabilities;
use crate::profile::{Os, Profile};
use crate::recommend::{recommend, recommended, recs_view, RecView, Recommendation};
use crate::snapshot::{Activity, Snapshot, SystemStats};

verus! {

#[derive(Debug, Clone)]
pub struct ScanReport {
    pub recommendations: Vec<Recommendation>,
    /// Seconds since the epoch.
    pub scanned_at: u64,
    /// Whether the platform could tell which programs own a window; without
    /// it only recognised software is listed.
    pub activity_known: bool,
    pub cached_bytes: u64,
}

/// Whether a find can be parked without asking.
pub open spec fn is_low_risk_addition(r: RecView) -> bool {
    r.risk == Risk::Low && !r.already_targeted
}

/// The finds that can be parked without asking, in their order.
pub open spec fn low_risk(rs: Seq<RecView>) -> Seq<RecView>
    decreases rs.len(),
{
    if rs.len() == 0 {
        rs
    } else if is_low_risk_addition(rs.last()) {
        low_risk(rs.drop_last()).push(rs.last())
    } else {
        low_risk(rs.drop_last())
    }
}

/// The finds that can be parked without asking: low risk and not already in
/// the profile.
pub fn low_risk_additions(recommendations: &Vec<Recommendation>) -> (r: Vec<Recommendation>)
    ensures
        recs_view(r@) == low_risk(recs_view(recommendations@)),
{
    let ghost all = recs_view(recommendations@);
    let mut out: Vec<Recommendation> = Vec::new();
    let mut i: usize = 0;
    assert(all.take(0) =~= Seq::<RecView>::empty());
    while i < recommendations.len()
        invariant
            i <= recommendations@.len(),
            all == recs_view(recommendations@),
            recs_view(out@) == low_risk(all.take(i as int)),
        decreases recommendations.len() - i,
    {
        assert(all.take(i + 1).drop_last() =~= all.take(i as int));
        let item = &recommendations[i];
        if item.risk == Risk::Low && !item.already_targeted {
            let ghost before = out@;
            out.push(item.copy());
            assert(recs_view(out@) =~= recs_view(before).push(all[i as int]));
        }
        i = i + 1;
    }
    assert(all.take(all.len() as int) =~= all);
    out
}

/// The memory the operating system could hand back by dropping its file
/// cache: available memory that is not free, never below zero.
pub open spec fn cache_of(stats: SystemStats) -> u64 {
    if stats.memory_available >= stats.memory_free {
        (stats.memory_available - stats.memory_free) as u64
    } else {
        0
    }
}

/// The scan of a snapshot already taken, with the figures and window
/// information sampled alongside it.
pub fn scan_report(
    profile: &Profile,
    snapshot: &Snapshot,
    stats: &SystemStats,
    activity: &Activity,
    self_pid: u32,
    os: Os,
    caps: &Capabilities,
    scanned_at: u64,
) -> (r: ScanReport)
    ensures
        recs_view(r.recommendations@) == recommended(*profile, *snapshot, *stats, *activity, self_pid, os, *caps),
        r.scanned_at == scanned_at,
        r.activity_known == activity.known,
        r.cached_bytes == cache_of(*stats),
{
    let recommendations = recommend(profile, snapshot, stats, activity, self_pid, os, caps);
    ScanReport {
        recommendations,
        scanned_at,
        activity_known: activity.known,
        cached_bytes: stats.memory_available.saturating_sub(stats.memory_free),
    }
}

} // verus!
