use vstd::prelude::*;

verus! {

/// The last counters seen for one entity, and when (nanoseconds on a
/// monotonic clock).
#[derive(PartialEq, Eq, Structural, Clone, Copy, Debug)]
pub struct Reading {
    pub received: u64,
    pub transmitted: u64,
    pub at_ns: u64,
}

/// Throughput over one step: `rx_bytes` and `tx_bytes` moved in `elapsed_ns`
/// nanoseconds. With `elapsed_ns == 0` no rate is known and both counts are 0:
/// the rate is zero.
#[derive(PartialEq, Eq, Structural, Clone, Copy, Debug)]
pub struct Throughput {
    pub rx_bytes: u64,
    pub tx_bytes: u64,
    pub elapsed_ns: u64,
}

pub struct TrackedEntry {
    pub name: String,
    pub reading: Reading,
}

/// Remembers the last reading of each named entity and turns successive
/// cumulative counters into throughput.
pub struct RateTracker {
    entries: Vec<TrackedEntry>,
}

pub open spec fn zero_throughput() -> Throughput {
    Throughput { rx_bytes: 0, tx_bytes: 0, elapsed_ns: 0 }
}

/// Subtraction that stops at zero.
pub open spec fn sat_sub(a: u64, b: u64) -> u64 {
    if a >= b {
        (a - b) as u64
    } else {
        0
    }
}

/// The throughput between a prior reading (if any) and new counters at `now_ns`:
/// zero on the first sighting or when no time has passed; otherwise the
/// counter growth, never negative, over the elapsed time.
pub open spec fn rate_step(prior: Option<Reading>, received: u64, transmitted: u64, now_ns: u64) -> Throughput {
    match prior {
        None => zero_throughput(),
        Some(p) => if now_ns <= p.at_ns {
            zero_throughput()
        } else {
            Throughput {
                rx_bytes: sat_sub(received, p.received),
                tx_bytes: sat_sub(transmitted, p.transmitted),
                elapsed_ns: (now_ns - p.at_ns) as u64,
            }
        },
    }
}

pub open spec fn names_unique(s: Seq<TrackedEntry>) -> bool {
    forall|i: int, j: int|
        0 <= i < s.len() && 0 <= j < s.len() && i != j ==> #[trigger] s[i].name@ != #[trigger] s[j].name@
}

pub open spec fn map_of(s: Seq<TrackedEntry>) -> Map<Seq<char>, Reading>
    decreases s.len(),
{
    if s.len() == 0 {
        Map::empty()
    } else {
        map_of(s.drop_last()).insert(s.last().name@, s.last().reading)
    }
}

proof fn lemma_map_of_index(s: Seq<TrackedEntry>, i: int)
    requires
        names_unique(s),
        0 <= i < s.len(),
    ensures
        map_of(s).contains_key(s[i].name@),
        map_of(s)[s[i].name@] == s[i].reading,
    decreases s.len(),
{
    if i < s.len() - 1 {
        let t = s.drop_last();
        assert(t[i] == s[i]);
        assert(s[i].name@ != s[s.len() - 1].name@);
        lemma_map_of_index(t, i);
    }
}

proof fn lemma_map_of_absent(s: Seq<TrackedEntry>, k: Seq<char>)
    requires
        forall|i: int| 0 <= i < s.len() ==> #[trigger] s[i].name@ != k,
    ensures
        !map_of(s).contains_key(k),
    decreases s.len(),
{
    if s.len() > 0 {
        let t = s.drop_last();
        assert forall|i: int| 0 <= i < t.len() implies #[trigger] t[i].name@ != k by {
            assert(t[i] == s[i]);
        }
        assert(s[s.len() - 1].name@ != k);
        lemma_map_of_absent(t, k);
    }
}

proof fn lemma_map_of_update(s: Seq<TrackedEntry>, i: int, e: TrackedEntry)
    requires
        names_unique(s),
        0 <= i < s.len(),
        e.name@ == s[i].name@,
    ensures
        names_unique(s.update(i, e)),
        map_of(s.update(i, e)) == map_of(s).insert(e.name@, e.reading),
    decreases s.len(),
{
    let u = s.update(i, e);
    assert(names_unique(u)) by {
        assert forall|a: int, b: int|
            0 <= a < u.len() && 0 <= b < u.len() && a != b implies #[trigger] u[a].name@
            != #[trigger] u[b].name@ by {
            assert(s[a].name@ != s[b].name@);
        }
    }
    if i == s.len() - 1 {
        assert(u.drop_last() == s.drop_last());
        assert(map_of(s.drop_last()).insert(e.name@, e.reading) =~= map_of(s.drop_last()).insert(
            s.last().name@,
            s.last().reading,
        ).insert(e.name@, e.reading));
    } else {
        let t = s.drop_last();
        assert(u.drop_last() == t.update(i, e));
        assert(names_unique(t)) by {
            assert forall|a: int, b: int|
                0 <= a < t.len() && 0 <= b < t.len() && a != b implies #[trigger] t[a].name@
                != #[trigger] t[b].name@ by {
                assert(s[a].name@ != s[b].name@);
            }
        }
        lemma_map_of_update(t, i, e);
        assert(s[i].name@ != s.last().name@);
        assert(map_of(u) =~= map_of(s).insert(e.name@, e.reading));
    }
}

impl View for RateTracker {
    type V = Map<Seq<char>, Reading>;

    closed spec fn view(&self) -> Map<Seq<char>, Reading> {
        map_of(self.entries@)
    }
}

impl RateTracker {
    /// Each name is held once.
    pub closed spec fn wf(&self) -> bool {
        names_unique(self.entries@)
    }

    /// A tracker that has seen nothing.
    pub fn new() -> (r: Self)
        ensures
            r.wf(),
            r@ == Map::<Seq<char>, Reading>::empty(),
    {
        RateTracker { entries: Vec::new() }
    }

    /// The last reading stored for `name`, if any.
    pub fn last_reading(&self, name: &str) -> (r: Option<Reading>)
        requires
            self.wf(),
        ensures
            r == (if self@.contains_key(name@) {
                Some(self@[name@])
            } else {
                None
            }),
    {
        let key = name.to_owned();
        match self.find(&key) {
            Some(i) => {
                proof {
                    lemma_map_of_index(self.entries@, i as int);
                }
                Some(self.entries[i].reading)
            },
            None => {
                proof {
                    lemma_map_of_absent(self.entries@, name@);
                }
                None
            },
        }
    }

    fn find(&self, name: &String) -> (r: Option<usize>)
        ensures
            match r {
                Some(i) => i < self.entries@.len() && self.entries@[i as int].name@ == name@,
                None => forall|i: int|
                    0 <= i < self.entries@.len() ==> #[trigger] self.entries@[i].name@ != name@,
            },
    {
        let mut i: usize = 0;
        while i < self.entries.len()
            invariant
                i <= self.entries@.len(),
                forall|j: int| 0 <= j < i ==> #[trigger] self.entries@[j].name@ != name@,
            decreases self.entries@.len() - i,
        {
            if self.entries[i].name == *name {
                return Some(i);
            }
            i = i + 1;
        }
        None
    }

    /// Records new cumulative counters for `name` at `now_ns` and returns the
    /// throughput since the previous reading of that name. The stored reading
    /// is replaced whichever way the rate came out.
    pub fn observe(&mut self, name: &str, received: u64, transmitted: u64, now_ns: u64) -> (r: Throughput)
        requires
            old(self).wf(),
        ensures
            final(self).wf(),
            r == rate_step(
                if old(self)@.contains_key(name@) {
                    Some(old(self)@[name@])
                } else {
                    None
                },
                received,
                transmitted,
                now_ns,
            ),
            final(self)@ == old(self)@.insert(
                name@,
                Reading { received, transmitted, at_ns: now_ns },
            ),
    {
        let reading = Reading { received, transmitted, at_ns: now_ns };
        let key = name.to_owned();
        match self.find(&key) {
            Some(i) => {
                proof {
                    lemma_map_of_index(self.entries@, i as int);
                }
                let prior = self.entries[i].reading;
                let r = if now_ns <= prior.at_ns {
                    Throughput { rx_bytes: 0, tx_bytes: 0, elapsed_ns: 0 }
                } else {
                    Throughput {
                        rx_bytes: if received >= prior.received {
                            received - prior.received
                        } else {
                            0
                        },
                        tx_bytes: if transmitted >= prior.transmitted {
                            transmitted - prior.transmitted
                        } else {
                            0
                        },
                        elapsed_ns: now_ns - prior.at_ns,
                    }
                };
                let ghost before = self.entries@;
                let e = TrackedEntry { name: key, reading };
                proof {
                    lemma_map_of_update(before, i as int, e);
                }
                self.entries.set(i, e);
                r
            },
            None => {
                proof {
                    lemma_map_of_absent(self.entries@, name@);
                }
                let ghost before = self.entries@;
                self.entries.push(TrackedEntry { name: key, reading });
                assert(self.entries@.drop_last() == before);
                assert(names_unique(self.entries@)) by {
                    assert forall|a: int, b: int|
                        0 <= a < self.entries@.len() && 0 <= b < self.entries@.len() && a
                            != b implies #[trigger] self.entries@[a].name@
                        != #[trigger] self.entries@[b].name@ by {
                        if a < before.len() {
                            assert(self.entries@[a] == before[a]);
                        }
                        if b < before.len() {
                            assert(self.entries@[b] == before[b]);
                        }
                    }
                }
                Throughput { rx_bytes: 0, tx_bytes: 0, elapsed_ns: 0 }
            },
        }
    }
}

/// The first reading of a name gives zero throughput.
pub proof fn lemma_cold_start(received: u64, transmitted: u64, now_ns: u64)
    ensures
        rate_step(None, received, transmitted, now_ns) == zero_throughput(),
{
}

/// A step with no elapsed time moves no bytes: a zero rate is always written
/// with zero counts.
pub proof fn lemma_no_time_no_bytes(prior: Option<Reading>, received: u64, transmitted: u64, now_ns: u64)
    ensures
        rate_step(prior, received, transmitted, now_ns).elapsed_ns == 0 ==> rate_step(
            prior,
            received,
            transmitted,
            now_ns,
        ) == zero_throughput(),
{
}

/// A counter that went down between two readings counts as no traffic in
/// that direction.
pub proof fn lemma_counter_reset(prior: Reading, received: u64, transmitted: u64, now_ns: u64)
    ensures
        received < prior.received ==> rate_step(Some(prior), received, transmitted, now_ns).rx_bytes == 0,
        transmitted < prior.transmitted ==> rate_step(Some(prior), received, transmitted, now_ns).tx_bytes == 0,
{
}

/// Two successive readings of one name with non-decreasing counters and a
/// strictly later time give exactly the counter growth over the elapsed time,
/// whatever else was stored in between.
pub proof fn lemma_monotone_step(
    seen: Map<Seq<char>, Reading>,
    name: Seq<char>,
    r1: u64,
    t1: u64,
    n1: u64,
    r2: u64,
    t2: u64,
    n2: u64,
)
    requires
        r1 <= r2,
        t1 <= t2,
        n1 < n2,
    ensures
        ({
            let after = seen.insert(name, Reading { received: r1, transmitted: t1, at_ns: n1 });
            rate_step(
                if after.contains_key(name) {
                    Some(after[name])
                } else {
                    None
                },
                r2,
                t2,
                n2,
            ) == Throughput { rx_bytes: (r2 - r1) as u64, tx_bytes: (t2 - t1) as u64, elapsed_ns: (n2 - n1) as u64 }
        }),
{
}

} // verus!
