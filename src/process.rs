use vstd::prelude::*;
use vstd::multiset::Multiset;
use vstd::seq_lib::group_to_multiset_ensures;

verus! {

broadcast use group_to_multiset_ensures;

/// One process as reported in detail. `cpu_usage_bits` is the bit pattern of
/// the single-precision usage percentage that the host reports.
pub struct ProcessInfo {
    pub pid: u32,
    pub name: String,
    pub cpu_usage_bits: u32,
    pub memory_usage: u64,
    pub status: String,
    pub user: Option<String>,
}

/// A process as read from the host, with whether its state is "running".
pub struct ProcessReading {
    pub info: ProcessInfo,
    pub running: bool,
}

/// The status text of a process in the running state.
pub open spec fn running_status() -> Seq<char> {
    seq!['R', 'u', 'n']
}

/// The top processes by processor usage, with counts over all of them.
pub struct ProcessStats {
    pub processes: Vec<ProcessInfo>,
    pub total_count: usize,
    pub running_count: usize,
}

pub const SIGN_BIT: u32 = 0x8000_0000;

pub const INFINITY_BITS: u32 = 0x7f80_0000;

/// The position of a single-precision bit pattern in numeric order: equal for
/// equal numbers (both zeros alike), larger for larger numbers, and below
/// every number for a NaN.
pub open spec fn usage_rank(bits: u32) -> int {
    let magnitude: int = if bits >= SIGN_BIT {
        bits - SIGN_BIT
    } else {
        bits as int
    };
    if magnitude > INFINITY_BITS {
        -(SIGN_BIT as int)
    } else if bits >= SIGN_BIT {
        -magnitude
    } else {
        magnitude
    }
}

pub open spec fn rank_of(p: ProcessInfo) -> int {
    usage_rank(p.cpu_usage_bits)
}

/// Highest processor usage first.
pub open spec fn sorted_by_usage(s: Seq<ProcessInfo>) -> bool {
    forall|i: int, j: int| 0 <= i < j < s.len() ==> rank_of(#[trigger] s[i]) >= rank_of(#[trigger] s[j])
}

pub open spec fn infos_of(s: Seq<ProcessReading>) -> Seq<ProcessInfo> {
    s.map_values(|r: ProcessReading| r.info)
}

/// How many readings are in the running state.
pub open spec fn count_running(s: Seq<ProcessReading>) -> nat
    decreases s.len(),
{
    if s.len() == 0 {
        0
    } else {
        count_running(s.drop_last()) + if s.last().running {
            1nat
        } else {
            0nat
        }
    }
}

/// How many leading entries of `t` rank strictly above `k`.
pub open spec fn lead_count(t: Seq<ProcessInfo>, k: int) -> nat
    decreases t.len(),
{
    if t.len() == 0 {
        0
    } else if rank_of(t[0]) > k {
        1 + lead_count(t.drop_first(), k)
    } else {
        0
    }
}

/// `x` put into `t` after the leading entries of strictly higher usage.
pub open spec fn insert_ranked(t: Seq<ProcessInfo>, x: ProcessInfo) -> Seq<ProcessInfo> {
    t.insert(lead_count(t, rank_of(x)) as int, x)
}

/// `s` ordered by usage, highest first; entries of equal usage keep their
/// order in `s`.
pub open spec fn stable_ranked(s: Seq<ProcessInfo>) -> Seq<ProcessInfo>
    decreases s.len(),
{
    if s.len() == 0 {
        Seq::empty()
    } else {
        insert_ranked(stable_ranked(s.drop_first()), s[0])
    }
}

/// The number of entries kept from `n` under a cap of `limit`.
pub open spec fn kept(n: nat, limit: nat) -> int {
    if limit < n {
        limit as int
    } else {
        n as int
    }
}

/// What a ranking of `readings` capped at `limit` may return: the first
/// `limit` entries of some ordering of all the processes, highest usage first.
pub open spec fn is_top(readings: Seq<ProcessReading>, limit: nat, top: Seq<ProcessInfo>) -> bool {
    exists|s: Seq<ProcessInfo>|
        #![trigger s.to_multiset()]
        s.to_multiset() == infos_of(readings).to_multiset() && sorted_by_usage(s) && top == s.take(
            kept(s.len(), limit),
        )
}

proof fn lemma_lead_count(t: Seq<ProcessInfo>, k: int, j: int)
    requires
        0 <= j <= t.len(),
        forall|a: int| 0 <= a < j ==> rank_of(#[trigger] t[a]) > k,
        j == t.len() || rank_of(t[j]) <= k,
    ensures
        lead_count(t, k) == j,
    decreases j,
{
    if j > 0 {
        let u = t.drop_first();
        assert forall|a: int| 0 <= a < j - 1 implies rank_of(#[trigger] u[a]) > k by {
            assert(u[a] == t[a + 1]);
        }
        if j < t.len() {
            assert(u[j - 1] == t[j]);
        }
        lemma_lead_count(u, k, j - 1);
    }
}

/// Executable form of `usage_rank`.
pub fn rank_usage(bits: u32) -> (r: i64)
    ensures
        r == usage_rank(bits),
{
    let magnitude: u32 = if bits >= SIGN_BIT {
        bits - SIGN_BIT
    } else {
        bits
    };
    if magnitude > INFINITY_BITS {
        -(SIGN_BIT as i64)
    } else if bits >= SIGN_BIT {
        -(magnitude as i64)
    } else {
        magnitude as i64
    }
}

fn count_running_in(readings: &Vec<ProcessReading>) -> (r: usize)
    ensures
        r == count_running(readings@),
{
    let mut n: usize = 0;
    let mut i: usize = 0;
    while i < readings.len()
        invariant
            i <= readings@.len(),
            n <= i,
            n == count_running(readings@.take(i as int)),
        decreases readings@.len() - i,
    {
        assert(readings@.take(i + 1).drop_last() == readings@.take(i as int));
        if readings[i].running {
            n = n + 1;
        }
        i = i + 1;
    }
    assert(readings@.take(readings@.len() as int) == readings@);
    n
}

/// Puts `p` into `out`, which is sorted highest usage first, after every
/// entry of strictly higher usage and before the others.
fn insert_by_usage(out: &mut Vec<ProcessInfo>, p: ProcessInfo)
    requires
        sorted_by_usage(old(out)@),
    ensures
        sorted_by_usage(final(out)@),
        final(out)@.to_multiset() == old(out)@.to_multiset().insert(p),
        final(out)@ == insert_ranked(old(out)@, p),
{
    let k = rank_usage(p.cpu_usage_bits);
    let mut j: usize = 0;
    while j < out.len() && rank_usage(out[j].cpu_usage_bits) > k
        invariant
            j <= out@.len(),
            forall|a: int| 0 <= a < j ==> rank_of(#[trigger] out@[a]) > k,
        decreases out@.len() - j,
    {
        j = j + 1;
    }
    let ghost before = out@;
    proof {
        lemma_lead_count(before, k as int, j as int);
    }
    out.insert(j, p);
    assert(sorted_by_usage(out@)) by {
        assert forall|a: int, b: int| 0 <= a < b < out@.len() implies rank_of(#[trigger] out@[a])
            >= rank_of(#[trigger] out@[b]) by {
            if j < before.len() {
                assert(rank_of(before[j as int]) <= k);
            }
            if b < j {
                assert(out@[a] == before[a] && out@[b] == before[b]);
            } else if b == j {
                assert(out@[a] == before[a]);
            } else if a < j {
                assert(out@[a] == before[a] && out@[b] == before[b - 1]);
            } else if a == j {
                assert(out@[b] == before[b - 1]);
                assert(rank_of(before[j as int]) >= rank_of(before[b - 1]));
            } else {
                assert(out@[a] == before[a - 1] && out@[b] == before[b - 1]);
            }
        }
    }
}

/// Orders all processes by processor usage, highest first (equal usage keeps
/// the order read, a NaN usage goes last), keeps the first `limit`, and
/// counts the whole population: all processes and those in the running state.
pub fn rank_processes(readings: Vec<ProcessReading>, limit: usize) -> (r: ProcessStats)
    ensures
        r.total_count == readings@.len(),
        r.running_count == count_running(readings@),
        r.processes@ == stable_ranked(infos_of(readings@)).take(kept(readings@.len(), limit as nat)),
        r.processes@.len() <= limit,
        sorted_by_usage(r.processes@),
        is_top(readings@, limit as nat, r.processes@),
{
    let total_count = readings.len();
    let running_count = count_running_in(&readings);
    let ghost all = infos_of(readings@);
    let mut rest = readings;
    let mut out: Vec<ProcessInfo> = Vec::new();
    while rest.len() > 0
        invariant
            sorted_by_usage(out@),
            out@.to_multiset().add(infos_of(rest@).to_multiset()) == all.to_multiset(),
            all.len() == readings@.len(),
            rest@.len() <= all.len(),
            infos_of(rest@) == all.take(rest@.len() as int),
            out@ == stable_ranked(all.skip(rest@.len() as int)),
        decreases rest@.len(),
    {
        let ghost prev = rest@;
        let item = rest.pop().unwrap();
        assert(infos_of(prev) == infos_of(rest@).push(item.info));
        assert(infos_of(rest@) =~= all.take(rest@.len() as int));
        assert(all.skip(rest@.len() as int).drop_first() =~= all.skip(prev.len() as int));
        assert(infos_of(prev)[rest@.len() as int] == item.info);
        assert(all[rest@.len() as int] == item.info);
        assert(all.skip(rest@.len() as int)[0] == item.info);
        let ghost out_before = out@;
        insert_by_usage(&mut out, item.info);
        assert(out@.to_multiset().add(infos_of(rest@).to_multiset()) =~= out_before.to_multiset().add(
            infos_of(prev).to_multiset(),
        ));
    }
    assert(infos_of(rest@).to_multiset() =~= Multiset::empty());
    assert(out@.to_multiset() =~= all.to_multiset());
    assert(all.skip(0) =~= all);
    assert(out@ == stable_ranked(all));
    assert(out@.to_multiset().len() == all.to_multiset().len());
    assert(out@.len() == readings@.len());
    let ghost sorted = out@;
    out.truncate(limit);
    proof {
        let k = kept(sorted.len(), limit as nat);
        assert(out@ =~= sorted.take(k));
        assert(sorted_by_usage(out@)) by {
            assert forall|a: int, b: int| 0 <= a < b < out@.len() implies rank_of(#[trigger] out@[a])
                >= rank_of(#[trigger] out@[b]) by {
                assert(out@[a] == sorted[a] && out@[b] == sorted[b]);
            }
        }
    }
    ProcessStats { processes: out, total_count, running_count }
}

/// Reads the process table and reports the busiest processes.
pub struct ProcessCollector {
    sys: sysinfo::System,
    limit: usize,
}

impl ProcessCollector {
    pub closed spec fn limit(&self) -> usize {
        self.limit
    }

    pub fn new(limit: usize) -> (r: Self)
        ensures
            r.limit() == limit,
    {
        ProcessCollector { sys: sysinfo::System::new(), limit }
    }

    /// Reloads the process table and ranks it: at most `limit` processes,
    /// highest usage first, with counts over the whole table.
    pub fn collect(&mut self) -> (s: ProcessStats)
        ensures
            final(self).limit() == old(self).limit(),
            s.processes@.len() <= old(self).limit(),
            sorted_by_usage(s.processes@),
            s.running_count <= s.total_count,
            exists|table: Seq<ProcessReading>|
                #![trigger count_running(table)]
                s.total_count == table.len() && s.running_count == count_running(table)
                    && s.processes@ == stable_ranked(infos_of(table)).take(
                    kept(table.len(), old(self).limit() as nat),
                ) && is_top(table, old(self).limit() as nat, s.processes@) && forall|i: int|
                    0 <= i < table.len() ==> ((#[trigger] table[i]).running <==> table[i].info.status@
                        == running_status()),
    {
        crate::host::refresh_all_processes(&mut self.sys);
        let readings = crate::host::process_readings(&self.sys);
        let ghost table = readings@;
        proof {
            lemma_running_at_most_total(table);
        }
        let s = rank_processes(readings, self.limit);
        assert(s.running_count == count_running(table));
        s
    }
}

/// No more processes are running than there are.
pub proof fn lemma_running_at_most_total(s: Seq<ProcessReading>)
    ensures
        count_running(s) <= s.len(),
    decreases s.len(),
{
    if s.len() > 0 {
        lemma_running_at_most_total(s.drop_last());
    }
}

} // verus!
