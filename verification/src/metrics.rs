//! Derived metrics: amplification ratios and interval-average latencies
//! computed from counter deltas and externally sampled disk statistics.
//! Every formula is total: a zero denominator is floored to one instead of
//! faulting, so idle intervals and empty stores still yield a snapshot.

use crate::counters::Counters;
use vstd::prelude::*;

verus! {

/// The divide-by-zero guard: an empty denominator counts as one.
pub open spec fn floor_one(x: nat) -> nat {
    if x == 0 {
        1
    } else {
        x
    }
}

/// Physical bytes over logical bytes, in thousandths.
pub open spec fn permille_ratio(phys: nat, logical: nat) -> nat {
    phys * 1000 / floor_one(logical)
}

/// Logical bytes moved by `ops` operations of `record_bytes` each.
pub open spec fn logical_bytes(ops: nat, record_bytes: nat) -> nat {
    ops * record_bytes
}

/// Interval-average latency: drained sum over operations, floored to one
/// operation so an idle interval averages to zero rather than faulting.
pub open spec fn interval_average_spec(sum: nat, ops: nat) -> nat {
    sum / floor_one(ops)
}

pub fn interval_average(sum: u64, ops: u64) -> (r: u64)
    ensures
        r as nat == interval_average_spec(sum as nat, ops as nat),
{
    if ops == 0 {
        sum
    } else {
        sum / ops
    }
}

/// Space amplification in thousandths: on-disk footprint over logical
/// dataset size. Total for every input, including an empty dataset.
pub fn space_amp_permille(du_bytes: u64, real_data_size: u64) -> (r: u128)
    ensures
        r as nat == permille_ratio(du_bytes as nat, real_data_size as nat),
{
    let num = (du_bytes as u128) * 1000;
    let den = if real_data_size == 0 {
        1u128
    } else {
        real_data_size as u128
    };
    num / den
}

/// Write amplification in thousandths: physical disk writes over
/// `write_ops * (key_size + value_size)`.
pub fn write_amp_permille(disk_bytes_written: u64, write_ops: u64, record_bytes: u64) -> (r: u128)
    ensures
        r as nat == permille_ratio(
            disk_bytes_written as nat,
            logical_bytes(write_ops as nat, record_bytes as nat),
        ),
{
    let num = (disk_bytes_written as u128) * 1000;
    proof {
        vstd::arithmetic::mul::lemma_mul_upper_bound(
            write_ops as int,
            u64::MAX as int,
            record_bytes as int,
            u64::MAX as int,
        );
    }
    let logical = (write_ops as u128) * (record_bytes as u128);
    let den = if logical == 0 {
        1u128
    } else {
        logical
    };
    num / den
}

/// Read amplification in thousandths: physical disk reads over
/// `(read_ops + scan_ops) * (key_size + value_size)`.
pub fn read_amp_permille(disk_bytes_read: u64, read_ops: u64, scan_ops: u64, record_bytes: u64) -> (r:
    u128)
    requires
        record_bytes < 0x2_0000_0000,
    ensures
        r as nat == permille_ratio(
            disk_bytes_read as nat,
            logical_bytes((read_ops + scan_ops) as nat, record_bytes as nat),
        ),
{
    let num = (disk_bytes_read as u128) * 1000;
    let ops = (read_ops as u128) + (scan_ops as u128);
    proof {
        vstd::arithmetic::mul::lemma_mul_upper_bound(
            ops as int,
            2 * (u64::MAX as int),
            record_bytes as int,
            0x2_0000_0000,
        );
    }
    let logical = ops * (record_bytes as u128);
    let den = if logical == 0 {
        1u128
    } else {
        logical
    };
    num / den
}

/// Sampling cadence: one hundred-twentieth of the run, at least a second.
pub open spec fn interval_secs_spec(duration_secs: nat) -> nat {
    if duration_secs / 120 < 1 {
        1
    } else {
        duration_secs / 120
    }
}

pub fn sampling_interval_secs(duration_secs: u64) -> (r: u64)
    ensures
        r as nat == interval_secs_spec(duration_secs as nat),
        r >= 1,
{
    let t = duration_secs / 120;
    if t < 1 {
        1
    } else {
        t
    }
}

/// Externally sampled process and disk statistics for one tick.
#[derive(Copy, Clone, Debug, PartialEq, Eq, Structural)]
pub struct DiskSample {
    /// On-disk footprint of the data directory.
    pub du_bytes: u64,
    /// Cumulative bytes the process wrote to disk.
    pub disk_bytes_written: u64,
    /// Cumulative bytes the process read from disk.
    pub disk_bytes_read: u64,
    /// Resident memory of the process.
    pub mem_bytes: u64,
}

/// One emitted metrics record: cumulative counters, the external sample,
/// amplification ratios in thousandths, and interval-local latency averages.
pub struct MetricsSnapshot {
    pub write_ops: u64,
    pub read_ops: u64,
    pub scan_ops: u64,
    pub delete_ops: u64,
    pub sample: DiskSample,
    pub space_amp_permille: u128,
    pub write_amp_permille: u128,
    pub read_amp_permille: u128,
    pub dataset_bytes: u64,
    pub avg_write_latency: u64,
    pub avg_read_latency: u64,
    pub avg_scan_latency: u64,
}

/// Count of operations since the previous tick; a counter that appears to
/// have moved backwards contributes zero rather than wrapping.
pub open spec fn since_spec(cur: nat, prev: nat) -> nat {
    if prev <= cur {
        (cur - prev) as nat
    } else {
        0
    }
}

pub fn ops_since(cur: u64, prev: u64) -> (r: u64)
    ensures
        r as nat == since_spec(cur as nat, prev as nat),
{
    if prev <= cur {
        cur - prev
    } else {
        0
    }
}

/// One sampling tick: drains the latency accumulators, reads the monotonic
/// counters, and combines them with the external sample into a snapshot
/// whose every field is fixed by the formulas above.
pub fn build_snapshot(
    counters: &mut Counters,
    sample: DiskSample,
    record_bytes: u64,
    prev_write_ops: u64,
    prev_read_ops: u64,
    prev_scan_ops: u64,
) -> (snap: MetricsSnapshot)
    requires
        record_bytes < 0x2_0000_0000,
    ensures
        snap.write_ops == old(counters).write_ops,
        snap.read_ops == old(counters).read_ops,
        snap.scan_ops == old(counters).scan_ops,
        snap.delete_ops == old(counters).delete_ops,
        snap.sample == sample,
        snap.dataset_bytes == old(counters).real_data_size,
        snap.space_amp_permille as nat == permille_ratio(
            sample.du_bytes as nat,
            old(counters).real_data_size as nat,
        ),
        snap.write_amp_permille as nat == permille_ratio(
            sample.disk_bytes_written as nat,
            logical_bytes(old(counters).write_ops as nat, record_bytes as nat),
        ),
        snap.read_amp_permille as nat == permille_ratio(
            sample.disk_bytes_read as nat,
            logical_bytes(
                (old(counters).read_ops + old(counters).scan_ops) as nat,
                record_bytes as nat,
            ),
        ),
        snap.avg_write_latency as nat == interval_average_spec(
            old(counters).write_latency_sum as nat,
            since_spec(old(counters).write_ops as nat, prev_write_ops as nat),
        ),
        snap.avg_read_latency as nat == interval_average_spec(
            old(counters).read_latency_sum as nat,
            since_spec(old(counters).read_ops as nat, prev_read_ops as nat),
        ),
        snap.avg_scan_latency as nat == interval_average_spec(
            old(counters).scan_latency_sum as nat,
            since_spec(old(counters).scan_ops as nat, prev_scan_ops as nat),
        ),
        final(counters).write_latency_sum == 0,
        final(counters).read_latency_sum == 0,
        final(counters).scan_latency_sum == 0,
        final(counters).write_ops == old(counters).write_ops,
        final(counters).read_ops == old(counters).read_ops,
        final(counters).scan_ops == old(counters).scan_ops,
        final(counters).delete_ops == old(counters).delete_ops,
        final(counters).real_data_size == old(counters).real_data_size,
{
    let write_ops = counters.write_ops;
    let read_ops = counters.read_ops;
    let scan_ops = counters.scan_ops;
    let delete_ops = counters.delete_ops;
    let dataset_bytes = counters.real_data_size;
    let (wsum, rsum, ssum) = counters.drain_latencies();
    MetricsSnapshot {
        write_ops,
        read_ops,
        scan_ops,
        delete_ops,
        sample,
        space_amp_permille: space_amp_permille(sample.du_bytes, dataset_bytes),
        write_amp_permille: write_amp_permille(sample.disk_bytes_written, write_ops, record_bytes),
        read_amp_permille: read_amp_permille(
            sample.disk_bytes_read,
            read_ops,
            scan_ops,
            record_bytes,
        ),
        dataset_bytes,
        avg_write_latency: interval_average(wsum, ops_since(write_ops, prev_write_ops)),
        avg_read_latency: interval_average(rsum, ops_since(read_ops, prev_read_ops)),
        avg_scan_latency: interval_average(ssum, ops_since(scan_ops, prev_scan_ops)),
    }
}

} // verus!
