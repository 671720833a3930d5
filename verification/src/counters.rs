//! Operation counters and latency accumulators of the instrumented store.
//! Operation counts are monotonic for the whole run; latency sums are
//! drained at every sampling tick, so they cover one interval only.

use vstd::prelude::*;

verus! {

/// Saturating 64-bit addition, the overflow policy of every accumulator.
pub open spec fn sat_add(a: nat, b: nat) -> nat {
    if a + b > u64::MAX {
        u64::MAX as nat
    } else {
        a + b
    }
}

pub fn saturating_add_u64(a: u64, b: u64) -> (r: u64)
    ensures
        r as nat == sat_add(a as nat, b as nat),
{
    if b > u64::MAX - a {
        u64::MAX
    } else {
        a + b
    }
}

/// One counter per operation kind plus the logical dataset size. All are
/// written through single fetch-add style updates; the delete counter is
/// reserved: no workload currently issues deletes.
pub struct Counters {
    pub write_ops: u64,
    pub read_ops: u64,
    pub scan_ops: u64,
    pub delete_ops: u64,
    pub write_latency_sum: u64,
    pub read_latency_sum: u64,
    pub scan_latency_sum: u64,
    /// Bytes of keys and values ever logically inserted; never decremented.
    pub real_data_size: u64,
}

impl Counters {
    pub fn new() -> (c: Self)
        ensures
            c.write_ops == 0,
            c.read_ops == 0,
            c.scan_ops == 0,
            c.delete_ops == 0,
            c.write_latency_sum == 0,
            c.read_latency_sum == 0,
            c.scan_latency_sum == 0,
            c.real_data_size == 0,
    {
        Counters {
            write_ops: 0,
            read_ops: 0,
            scan_ops: 0,
            delete_ops: 0,
            write_latency_sum: 0,
            read_latency_sum: 0,
            scan_latency_sum: 0,
            real_data_size: 0,
        }
    }

    /// Exactly one more successful write is on record afterwards.
    pub fn record_write(&mut self)
        requires
            old(self).write_ops < u64::MAX,
        ensures
            final(self).write_ops == old(self).write_ops + 1,
            final(self).read_ops == old(self).read_ops,
            final(self).scan_ops == old(self).scan_ops,
            final(self).delete_ops == old(self).delete_ops,
            final(self).write_latency_sum == old(self).write_latency_sum,
            final(self).read_latency_sum == old(self).read_latency_sum,
            final(self).scan_latency_sum == old(self).scan_latency_sum,
            final(self).real_data_size == old(self).real_data_size,
    {
        self.write_ops = self.write_ops + 1;
    }

    /// Exactly one more successful point read is on record afterwards.
    pub fn record_read(&mut self)
        requires
            old(self).read_ops < u64::MAX,
        ensures
            final(self).read_ops == old(self).read_ops + 1,
            final(self).write_ops == old(self).write_ops,
            final(self).scan_ops == old(self).scan_ops,
            final(self).delete_ops == old(self).delete_ops,
            final(self).write_latency_sum == old(self).write_latency_sum,
            final(self).read_latency_sum == old(self).read_latency_sum,
            final(self).scan_latency_sum == old(self).scan_latency_sum,
            final(self).real_data_size == old(self).real_data_size,
    {
        self.read_ops = self.read_ops + 1;
    }

    /// Exactly one more successful scan is on record afterwards.
    pub fn record_scan(&mut self)
        requires
            old(self).scan_ops < u64::MAX,
        ensures
            final(self).scan_ops == old(self).scan_ops + 1,
            final(self).write_ops == old(self).write_ops,
            final(self).read_ops == old(self).read_ops,
            final(self).delete_ops == old(self).delete_ops,
            final(self).write_latency_sum == old(self).write_latency_sum,
            final(self).read_latency_sum == old(self).read_latency_sum,
            final(self).scan_latency_sum == old(self).scan_latency_sum,
            final(self).real_data_size == old(self).real_data_size,
    {
        self.scan_ops = self.scan_ops + 1;
    }

    /// Accounts freshly inserted key and value bytes to the logical dataset
    /// size.
    pub fn add_logical_bytes(&mut self, n: u64)
        ensures
            final(self).real_data_size as nat == sat_add(old(self).real_data_size as nat, n as nat),
            final(self).write_ops == old(self).write_ops,
            final(self).read_ops == old(self).read_ops,
            final(self).scan_ops == old(self).scan_ops,
            final(self).delete_ops == old(self).delete_ops,
            final(self).write_latency_sum == old(self).write_latency_sum,
            final(self).read_latency_sum == old(self).read_latency_sum,
            final(self).scan_latency_sum == old(self).scan_latency_sum,
    {
        self.real_data_size = saturating_add_u64(self.real_data_size, n);
    }

    /// Adds one operation's duration to the per-kind interval accumulator.
    pub fn add_write_latency(&mut self, d: u64)
        ensures
            final(self).write_latency_sum as nat == sat_add(
                old(self).write_latency_sum as nat,
                d as nat,
            ),
            final(self).write_ops == old(self).write_ops,
            final(self).read_ops == old(self).read_ops,
            final(self).scan_ops == old(self).scan_ops,
            final(self).delete_ops == old(self).delete_ops,
            final(self).read_latency_sum == old(self).read_latency_sum,
            final(self).scan_latency_sum == old(self).scan_latency_sum,
            final(self).real_data_size == old(self).real_data_size,
    {
        self.write_latency_sum = saturating_add_u64(self.write_latency_sum, d);
    }

    pub fn add_read_latency(&mut self, d: u64)
        ensures
            final(self).read_latency_sum as nat == sat_add(
                old(self).read_latency_sum as nat,
                d as nat,
            ),
            final(self).write_ops == old(self).write_ops,
            final(self).read_ops == old(self).read_ops,
            final(self).scan_ops == old(self).scan_ops,
            final(self).delete_ops == old(self).delete_ops,
            final(self).write_latency_sum == old(self).write_latency_sum,
            final(self).scan_latency_sum == old(self).scan_latency_sum,
            final(self).real_data_size == old(self).real_data_size,
    {
        self.read_latency_sum = saturating_add_u64(self.read_latency_sum, d);
    }

    pub fn add_scan_latency(&mut self, d: u64)
        ensures
            final(self).scan_latency_sum as nat == sat_add(
                old(self).scan_latency_sum as nat,
                d as nat,
            ),
            final(self).write_ops == old(self).write_ops,
            final(self).read_ops == old(self).read_ops,
            final(self).scan_ops == old(self).scan_ops,
            final(self).delete_ops == old(self).delete_ops,
            final(self).write_latency_sum == old(self).write_latency_sum,
            final(self).read_latency_sum == old(self).read_latency_sum,
            final(self).real_data_size == old(self).real_data_size,
    {
        self.scan_latency_sum = saturating_add_u64(self.scan_latency_sum, d);
    }

    /// Reads and resets the three latency accumulators in one step, as the
    /// sampling tick does; operation counters are left untouched.
    pub fn drain_latencies(&mut self) -> (r: (u64, u64, u64))
        ensures
            r.0 == old(self).write_latency_sum,
            r.1 == old(self).read_latency_sum,
            r.2 == old(self).scan_latency_sum,
            final(self).write_latency_sum == 0,
            final(self).read_latency_sum == 0,
            final(self).scan_latency_sum == 0,
            final(self).write_ops == old(self).write_ops,
            final(self).read_ops == old(self).read_ops,
            final(self).scan_ops == old(self).scan_ops,
            final(self).delete_ops == old(self).delete_ops,
            final(self).real_data_size == old(self).real_data_size,
    {
        let r = (self.write_latency_sum, self.read_latency_sum, self.scan_latency_sum);
        self.write_latency_sum = 0;
        self.read_latency_sum = 0;
        self.scan_latency_sum = 0;
        r
    }
}

} // verus!
