//! Security incidents and the threat level they add up to. Times are seconds
//! since the Unix epoch.
use vstd::prelude::*;

verus! {

/// How threatening a peer is.
#[derive(Debug, Clone, Copy, PartialEq, Eq, Structural)]
pub enum ThreatLevel {
    Low,
    Medium,
    High,
    Critical,
}

/// A recorded security incident.
#[derive(Debug, Clone)]
pub struct SecurityIncident {
    pub timestamp: u64,
    pub incident_type: String,
    pub severity: ThreatLevel,
    pub description: String,
}

/// The threat level of a peer with `anomalies` recorded anomalies: more than
/// 10 is critical, more than 5 high, more than 2 medium, otherwise low.
pub open spec fn threat_level_spec(anomalies: nat) -> ThreatLevel {
    if anomalies > 10 {
        ThreatLevel::Critical
    } else if anomalies > 5 {
        ThreatLevel::High
    } else if anomalies > 2 {
        ThreatLevel::Medium
    } else {
        ThreatLevel::Low
    }
}

/// The threat level of a peer with `anomalies` recorded anomalies (an unknown
/// peer counts as having none).
pub fn threat_level_for_anomalies(anomalies: usize) -> (t: ThreatLevel)
    ensures
        t == threat_level_spec(anomalies as nat),
{
    if anomalies > 10 {
        ThreatLevel::Critical
    } else if anomalies > 5 {
        ThreatLevel::High
    } else if anomalies > 2 {
        ThreatLevel::Medium
    } else {
        ThreatLevel::Low
    }
}

/// The rank of a threat level: Low 1, Medium 2, High 3, Critical 4.
pub open spec fn threat_code_spec(t: ThreatLevel) -> u8 {
    match t {
        ThreatLevel::Low => 1,
        ThreatLevel::Medium => 2,
        ThreatLevel::High => 3,
        ThreatLevel::Critical => 4,
    }
}

/// The rank of a threat level, as carried by a security alert.
pub fn threat_level_code(t: ThreatLevel) -> (c: u8)
    ensures
        c == threat_code_spec(t),
{
    match t {
        ThreatLevel::Low => 1,
        ThreatLevel::Medium => 2,
        ThreatLevel::High => 3,
        ThreatLevel::Critical => 4,
    }
}

/// More anomalies never lower the threat level.
pub proof fn lemma_threat_level_monotone(a: nat, b: nat)
    requires
        a <= b,
    ensures
        threat_code_spec(threat_level_spec(a)) <= threat_code_spec(threat_level_spec(b)),
{
}

/// The cutoff for keeping incidents no older than `max_age` seconds at time
/// `now`: `now - max_age`; none (everything is kept) when that lies before the
/// epoch but within the system clock's range of 2^63 seconds before it; `now`
/// when it lies outside that range.
pub open spec fn incident_cutoff_spec(now: u64, max_age: u64) -> Option<u64> {
    if max_age <= now {
        Some((now - max_age) as u64)
    } else if max_age - now <= 0x8000_0000_0000_0000 {
        None
    } else {
        Some(now)
    }
}

/// See `incident_cutoff_spec`.
pub fn incident_cutoff(now: u64, max_age: u64) -> (c: Option<u64>)
    ensures
        c == incident_cutoff_spec(now, max_age),
{
    if max_age <= now {
        Some(now - max_age)
    } else if max_age - now <= 0x8000_0000_0000_0000 {
        None
    } else {
        Some(now)
    }
}

/// Whether an incident at `timestamp` is kept for the cutoff.
pub open spec fn kept_after(timestamp: u64, cutoff: Option<u64>) -> bool {
    match cutoff {
        Some(c) => timestamp > c,
        None => true,
    }
}

/// Keeps the incidents later than the cutoff, in order.
pub fn retain_recent_incidents(incidents: &mut Vec<SecurityIncident>, cutoff: Option<u64>)
    ensures
        final(incidents)@ == old(incidents)@.filter(|i: SecurityIncident| kept_after(i.timestamp, cutoff)),
{
    let ghost pred = |i: SecurityIncident| kept_after(i.timestamp, cutoff);
    let ghost all = incidents@;
    let total: usize = incidents.len();
    let mut kept: Vec<SecurityIncident> = Vec::new();
    let mut rest: Vec<SecurityIncident> = Vec::new();
    std::mem::swap(&mut rest, incidents);
    proof {
        reveal(Seq::filter);
        assert(all.take(0) =~= Seq::<SecurityIncident>::empty());
        assert(rest@ =~= all.skip(0));
    }
    let mut i: usize = 0;
    while i < total
        invariant
            pred == (|i: SecurityIncident| kept_after(i.timestamp, cutoff)),
            total == all.len(),
            i <= total,
            rest@ == all.skip(i as int),
            kept@ == all.take(i as int).filter(pred),
        decreases total - i,
    {
        let item = rest.remove(0);
        proof {
            reveal(Seq::filter);
            assert(item == all[i as int]);
            assert(rest@ =~= all.skip(i + 1));
            assert(all.take(i + 1).drop_last() =~= all.take(i as int));
            assert(all.take(i + 1).last() == all[i as int]);
        }
        let keep = match cutoff {
            Some(c) => item.timestamp > c,
            None => true,
        };
        if keep {
            kept.push(item);
        }
        i = i + 1;
    }
    proof {
        assert(all.take(all.len() as int) =~= all);
    }
    *incidents = kept;
}

} // verus!
