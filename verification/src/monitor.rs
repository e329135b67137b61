//! Liveness monitor decisions. Each cycle snapshots the registry, probes
//! every peer with a bounded timeout (the probes run outside the library,
//! concurrently with bounded parallelism), and then applies the outcomes
//! here: a success refreshes the peer's probe time, any failure evicts the
//! peer at once — single strike, no grace period, no retry. Races with
//! concurrent registration are serialized by the registry itself.

use vstd::prelude::*;
use crate::registry::{
    PeerNodeView, PeerRegistry, contains_peer, peer_at, peer_index, peers_distinct,
};

verus! {

/// Outcome of one bounded-timeout probe of one peer. Any failure — a
/// non-success status, a timeout, a connection error or a malformed
/// address — is reported as not alive.
pub struct ProbeReport {
    pub address: String,
    pub port: u16,
    pub alive: bool,
}

/// Mathematical image of a probe outcome.
#[verifier::ext_equal]
pub struct ProbeReportView {
    pub address: Seq<char>,
    pub port: u16,
    pub alive: bool,
}

impl View for ProbeReport {
    type V = ProbeReportView;

    open spec fn view(&self) -> ProbeReportView {
        ProbeReportView { address: self.address@, port: self.port, alive: self.alive }
    }
}

/// What one probe outcome does to the registered peers: a success updates
/// the peer's probe time to the cycle's time, a failure evicts the peer; an
/// outcome about an unregistered peer changes nothing.
pub open spec fn spec_apply_probe(
    s: Seq<PeerNodeView>,
    report: ProbeReportView,
    now: i64,
) -> Seq<PeerNodeView> {
    if contains_peer(s, report.address, report.port) {
        let i = peer_index(s, report.address, report.port);
        if report.alive {
            s.update(
                i,
                PeerNodeView { address: report.address, port: report.port, last_ping_at: Some(now) },
            )
        } else {
            s.remove(i)
        }
    } else {
        s
    }
}

/// One probe outcome after another, oldest first.
pub open spec fn spec_apply_probes(
    s: Seq<PeerNodeView>,
    reports: Seq<ProbeReportView>,
    now: i64,
) -> Seq<PeerNodeView>
    decreases reports.len(),
{
    if reports.len() == 0 {
        s
    } else {
        spec_apply_probes(spec_apply_probe(s, reports[0], now), reports.skip(1), now)
    }
}

/// Apply one probe outcome to the registry.
pub fn apply_probe(registry: &mut PeerRegistry, report: &ProbeReport, now: i64)
    ensures
        final(registry)@ == spec_apply_probe(old(registry)@, report@, now),
        !report.alive ==> !contains_peer(final(registry)@, report.address@, report.port),
        report.alive && contains_peer(old(registry)@, report.address@, report.port) ==> peer_at(
            final(registry)@,
            report.address@,
            report.port,
        ).last_ping_at == Some(now),
        peers_distinct(final(registry)@),
{
    if report.alive {
        let _ = registry.refresh(&report.address, report.port, now);
    } else {
        let _ = registry.remove(&report.address, report.port);
    }
}

/// Evaluate one monitor cycle: apply every probe outcome gathered over the
/// snapshot, oldest first.
pub fn apply_probe_results(registry: &mut PeerRegistry, reports: &Vec<ProbeReport>, now: i64)
    ensures
        final(registry)@ == spec_apply_probes(
            old(registry)@,
            reports@.map_values(|p: ProbeReport| p@),
            now,
        ),
{
    let ghost all = reports@.map_values(|p: ProbeReport| p@);
    proof {
        assert(all.skip(0) =~= all);
    }
    let mut i: usize = 0;
    while i < reports.len()
        invariant
            i <= reports@.len(),
            all == reports@.map_values(|p: ProbeReport| p@),
            all.len() == reports@.len(),
            spec_apply_probes(registry@, all.skip(i as int), now) == spec_apply_probes(
                old(registry)@,
                all,
                now,
            ),
        decreases reports@.len() - i,
    {
        let ghost before = registry@;
        let ghost rest = all.skip(i as int);
        apply_probe(registry, &reports[i], now);
        proof {
            assert(rest.len() > 0);
            assert(rest[0] == all[i as int]);
            assert(all[i as int] == reports@[i as int]@);
            assert(spec_apply_probes(before, rest, now) == spec_apply_probes(
                spec_apply_probe(before, rest[0], now),
                rest.skip(1),
                now,
            ));
            assert(rest.skip(1) =~= all.skip(i + 1));
        }
        i += 1;
    }
    proof {
        assert(all.skip(all.len() as int).len() == 0);
    }
}

/// Liveness eviction: a peer whose probe failed is absent as soon as the
/// outcome is applied.
pub proof fn lemma_failed_probe_evicts(s: Seq<PeerNodeView>, report: ProbeReportView, now: i64)
    requires
        peers_distinct(s),
        !report.alive,
    ensures
        !contains_peer(spec_apply_probe(s, report, now), report.address, report.port),
{
    if contains_peer(s, report.address, report.port) {
        let w = peer_index(s, report.address, report.port);
        assert(0 <= w < s.len() && s[w].address == report.address && s[w].port == report.port);
        let t = s.remove(w);
        assert forall|j: int| 0 <= j < t.len() implies !(t[j].address == report.address
            && t[j].port == report.port) by {
            let j0 = if j < w {
                j
            } else {
                j + 1
            };
            assert(t[j] == s[j0]);
        }
    }
}

/// Liveness refresh: a peer whose probe succeeded stays registered, with
/// its probe time set to the cycle's time.
pub proof fn lemma_successful_probe_refreshes(
    s: Seq<PeerNodeView>,
    report: ProbeReportView,
    now: i64,
)
    requires
        peers_distinct(s),
        report.alive,
        contains_peer(s, report.address, report.port),
    ensures
        contains_peer(spec_apply_probe(s, report, now), report.address, report.port),
        peer_at(spec_apply_probe(s, report, now), report.address, report.port).last_ping_at
            == Some(now),
{
    let w = peer_index(s, report.address, report.port);
    assert(0 <= w < s.len() && s[w].address == report.address && s[w].port == report.port);
    let pv = PeerNodeView { address: report.address, port: report.port, last_ping_at: Some(now) };
    let t = s.update(w, pv);
    assert(t[w] == pv);
    assert(contains_peer(t, report.address, report.port));
    let v = peer_index(t, report.address, report.port);
    assert(0 <= v < t.len() && t[v].address == report.address && t[v].port == report.port);
    assert forall|j: int| 0 <= j < t.len() && j != w implies !(t[j].address == report.address
        && t[j].port == report.port) by {
        assert(t[j] == s[j]);
    }
    assert(v == w);
}

} // verus!
