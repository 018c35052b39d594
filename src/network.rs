use vstd::prelude::*;

use crate::host::{interface_readings, nanos_since};
use crate::rate::{lemma_no_time_no_bytes, rate_step, zero_throughput, RateTracker, Reading, Throughput};

verus! {

/// Cumulative byte counters of one interface as read from the host.
pub struct InterfaceReading {
    pub name: String,
    pub received: u64,
    pub transmitted: u64,
}

/// One interface as reported: its counters and its throughput since the
/// previous sample.
pub struct InterfaceStats {
    pub name: String,
    pub received_bytes: u64,
    pub transmitted_bytes: u64,
    pub rate: Throughput,
}

pub struct NetworkStats {
    pub interfaces: Vec<InterfaceStats>,
}

/// The prior reading of `name` in `seen`, if any.
pub open spec fn prior_of(seen: Map<Seq<char>, Reading>, name: Seq<char>) -> Option<Reading> {
    if seen.contains_key(name) {
        Some(seen[name])
    } else {
        None
    }
}

/// What the tracker holds after recording `rs` in order at `now_ns`.
pub open spec fn seen_after(seen: Map<Seq<char>, Reading>, rs: Seq<InterfaceReading>, now_ns: u64) -> Map<
    Seq<char>,
    Reading,
>
    decreases rs.len(),
{
    if rs.len() == 0 {
        seen
    } else {
        seen_after(seen, rs.drop_last(), now_ns).insert(
            rs.last().name@,
            Reading { received: rs.last().received, transmitted: rs.last().transmitted, at_ns: now_ns },
        )
    }
}

/// The report of the `i`-th interface of `rs`, given what the tracker held
/// before the sample.
pub open spec fn interface_of(seen: Map<Seq<char>, Reading>, rs: Seq<InterfaceReading>, i: int, now_ns: u64) -> InterfaceStats {
    InterfaceStats {
        name: rs[i].name,
        received_bytes: rs[i].received,
        transmitted_bytes: rs[i].transmitted,
        rate: rate_step(
            prior_of(seen_after(seen, rs.take(i), now_ns), rs[i].name@),
            rs[i].received,
            rs[i].transmitted,
            now_ns,
        ),
    }
}

/// Reports every interface of one sample taken at `now_ns`, in the order
/// read, with its throughput since the tracker last saw it, and records the
/// sample in the tracker.
pub fn network_stats(tracker: &mut RateTracker, readings: Vec<InterfaceReading>, now_ns: u64) -> (s: NetworkStats)
    requires
        old(tracker).wf(),
    ensures
        final(tracker).wf(),
        final(tracker)@ == seen_after(old(tracker)@, readings@, now_ns),
        s.interfaces@.len() == readings@.len(),
        forall|i: int|
            0 <= i < readings@.len() ==> #[trigger] s.interfaces@[i] == interface_of(
                old(tracker)@,
                readings@,
                i,
                now_ns,
            ),
{
    let ghost all = readings@;
    let ghost start = tracker@;
    let mut rest = readings;
    let mut interfaces: Vec<InterfaceStats> = Vec::new();
    while rest.len() > 0
        invariant
            tracker.wf(),
            interfaces@.len() + rest@.len() == all.len(),
            rest@ == all.skip(interfaces@.len() as int),
            tracker@ == seen_after(start, all.take(interfaces@.len() as int), now_ns),
            forall|i: int|
                0 <= i < interfaces@.len() ==> #[trigger] interfaces@[i] == interface_of(
                    start,
                    all,
                    i,
                    now_ns,
                ),
        decreases rest@.len(),
    {
        let ghost n = interfaces@.len() as int;
        let r = rest.remove(0);
        assert(r == all[n]);
        let rate = tracker.observe(r.name.as_str(), r.received, r.transmitted, now_ns);
        interfaces.push(
            InterfaceStats {
                name: r.name,
                received_bytes: r.received,
                transmitted_bytes: r.transmitted,
                rate,
            },
        );
        assert(all.take(n + 1).drop_last() =~= all.take(n));
        assert(rest@ =~= all.skip(interfaces@.len() as int));
    }
    assert(all.take(all.len() as int) =~= all);
    NetworkStats { interfaces }
}

/// Reads every interface's counters at each call and keeps the previous
/// readings to derive throughput.
pub struct NetworkCollector {
    networks: sysinfo::Networks,
    tracker: RateTracker,
    origin: std::time::Instant,
}

impl NetworkCollector {
    pub closed spec fn wf(&self) -> bool {
        self.tracker.wf()
    }

    /// The last reading stored for each interface name.
    pub closed spec fn seen(&self) -> Map<Seq<char>, Reading> {
        self.tracker@
    }

    /// A collector that has seen no interface yet.
    pub fn new() -> (r: Self)
        ensures
            r.wf(),
            r.seen() == Map::<Seq<char>, Reading>::empty(),
    {
        NetworkCollector {
            networks: sysinfo::Networks::new_with_refreshed_list(),
            tracker: RateTracker::new(),
            origin: std::time::Instant::now(),
        }
    }

    /// Re-reads the interfaces and reports each with its throughput since the
    /// previous call.
    pub fn collect(&mut self) -> (s: NetworkStats)
        requires
            old(self).wf(),
        ensures
            final(self).wf(),
            exists|rs: Seq<InterfaceReading>, now: u64|
                #![trigger seen_after(old(self).seen(), rs, now)]
                final(self).seen() == seen_after(old(self).seen(), rs, now) && s.interfaces@.len()
                    == rs.len() && forall|i: int|
                    0 <= i < rs.len() ==> #[trigger] s.interfaces@[i] == interface_of(
                        old(self).seen(),
                        rs,
                        i,
                        now,
                    ),
            forall|i: int|
                0 <= i < s.interfaces@.len() ==> (#[trigger] s.interfaces@[i]).rate.elapsed_ns == 0
                    ==> s.interfaces@[i].rate == zero_throughput(),
    {
        self.networks.refresh(true);
        let now_ns = nanos_since(&self.origin);
        let readings = interface_readings(&self.networks);
        let ghost seen = self.tracker@;
        let ghost rs = readings@;
        let s = network_stats(&mut self.tracker, readings, now_ns);
        assert forall|i: int|
            0 <= i < s.interfaces@.len() && (#[trigger] s.interfaces@[i]).rate.elapsed_ns
                == 0 implies s.interfaces@[i].rate == zero_throughput() by {
            assert(s.interfaces@[i] == interface_of(seen, rs, i, now_ns));
            lemma_no_time_no_bytes(
                prior_of(seen_after(seen, rs.take(i), now_ns), rs[i].name@),
                rs[i].received,
                rs[i].transmitted,
                now_ns,
            );
        }
        assert(seen == old(self).seen());
        assert(self.seen() == seen_after(old(self).seen(), rs, now_ns));
        assert(forall|i: int|
            0 <= i < rs.len() ==> #[trigger] s.interfaces@[i] == interface_of(old(self).seen(), rs, i, now_ns));
        s
    }
}

} // verus!
