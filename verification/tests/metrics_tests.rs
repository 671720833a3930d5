use rust_storage_bench::config::{
    validate, Backend, ConfigError, LsmCompaction, RunConfig, Workload,
};
use rust_storage_bench::counters::Counters;
use rust_storage_bench::metrics::{
    build_snapshot, interval_average, read_amp_permille, sampling_interval_secs,
    space_amp_permille, write_amp_permille, DiskSample,
};
use rust_storage_bench::values::make_value;

fn cfg() -> RunConfig {
    RunConfig {
        backend: Backend::Redb,
        workload: Workload::TaskA,
        threads: 2,
        items: 1000,
        key_size: 64,
        value_size: 1024,
        compressible_value: true,
        lsm_block_size: 4096,
        lsm_compaction: LsmCompaction::Tiered,
        cache_size: 512_000_000,
        write_buffer_size: 64_000_000,
        fsync: false,
        minutes: 1,
        random: false,
        zipf_exponent_milli: 990,
    }
}

#[test]
fn amplification_survives_zero_denominators() {
    // empty dataset: the guard floors the denominator to one
    assert_eq!(space_amp_permille(4096, 0), 4096 * 1000);
    assert_eq!(write_amp_permille(100, 0, 25), 100 * 1000);
    assert_eq!(read_amp_permille(100, 0, 0, 25), 100 * 1000);
    assert_eq!(interval_average(550, 0), 550);
}

#[test]
fn amplification_exact_values() {
    // 2048 physical over 1024 logical is 2.000x
    assert_eq!(space_amp_permille(2048, 1024), 2000);
    // 3000 written over 2 ops of 500 bytes each is 3.000x
    assert_eq!(write_amp_permille(3000, 2, 500), 3000);
    // 1500 read over (2 + 1) ops of 500 bytes is 1.000x
    assert_eq!(read_amp_permille(1500, 2, 1, 500), 1000);
    assert_eq!(interval_average(1000, 4), 250);
}

#[test]
fn sampling_interval_has_a_one_second_floor() {
    assert_eq!(sampling_interval_secs(0), 1);
    assert_eq!(sampling_interval_secs(119), 1);
    assert_eq!(sampling_interval_secs(120), 1);
    assert_eq!(sampling_interval_secs(600), 5);
    assert_eq!(sampling_interval_secs(7200), 60);
}

#[test]
fn snapshot_drains_latencies_and_keeps_counters() {
    let mut c = Counters::new();
    c.record_write();
    c.record_write();
    c.record_read();
    c.add_write_latency(300);
    c.add_read_latency(40);
    let sample = DiskSample {
        du_bytes: 10_000,
        disk_bytes_written: 5_000,
        disk_bytes_read: 2_000,
        mem_bytes: 1 << 20,
    };
    c.add_logical_bytes(2 * 1088);
    let snap = build_snapshot(&mut c, sample, 1088, 0, 0, 0);
    assert_eq!(snap.write_ops, 2);
    assert_eq!(snap.read_ops, 1);
    assert_eq!(snap.scan_ops, 0);
    assert_eq!(snap.delete_ops, 0);
    assert_eq!(snap.dataset_bytes, 2176);
    // interval averages: 300 / 2 writes, 40 / 1 read
    assert_eq!(snap.avg_write_latency, 150);
    assert_eq!(snap.avg_read_latency, 40);
    assert_eq!(snap.avg_scan_latency, 0);
    // space amp: 10000 / 2176, in thousandths
    assert_eq!(snap.space_amp_permille, 10_000 * 1000 / 2176);
    // write amp: 5000 / (2 * 1088)
    assert_eq!(snap.write_amp_permille, 5_000 * 1000 / 2176);
    // read amp: 2000 / (1 * 1088)
    assert_eq!(snap.read_amp_permille, 2_000 * 1000 / 1088);
    // the accumulators were drained, the counters were not
    assert_eq!(c.write_latency_sum, 0);
    assert_eq!(c.read_latency_sum, 0);
    assert_eq!(c.write_ops, 2);
    assert_eq!(c.read_ops, 1);
    // a second tick over an idle interval still yields a snapshot
    let snap2 = build_snapshot(&mut c, sample, 1088, 2, 1, 0);
    assert_eq!(snap2.avg_write_latency, 0);
    assert_eq!(snap2.avg_read_latency, 0);
}

#[test]
fn validate_accepts_a_sound_configuration() {
    assert_eq!(validate(&cfg()), Ok(()));
}

#[test]
fn validate_rejects_sled_with_fsync() {
    let mut c = cfg();
    c.backend = Backend::Sled;
    c.fsync = true;
    assert_eq!(validate(&c), Err(ConfigError::DurabilityUnsupported));
    // the read-only workload never writes during the run, so it is allowed
    c.workload = Workload::TaskC;
    assert_eq!(validate(&c), Ok(()));
}

#[test]
fn validate_rejects_tiny_population() {
    let mut c = cfg();
    c.items = 1;
    assert_eq!(validate(&c), Err(ConfigError::PopulationTooSmall));
}

#[test]
fn validate_rejects_zero_skew() {
    let mut c = cfg();
    c.zipf_exponent_milli = 0;
    assert_eq!(validate(&c), Err(ConfigError::SkewNotPositive));
}

#[test]
fn labels_name_engine_and_workload() {
    assert_eq!(Backend::Sled.label(), "sled 0.34.7");
    assert_eq!(Backend::Fjall.label(), "fjall 1.2.0");
    assert_eq!(Backend::Nebari.label(), "nebari 0.5.5");
    assert_eq!(Workload::TaskC.label(), "task-c");
    assert_eq!(LsmCompaction::Leveled.label(), "LCS");
    assert_eq!(LsmCompaction::Tiered.label(), "STCS");
    assert_eq!(
        ConfigError::PopulationTooSmall.message(),
        "need at least 2 preloaded items"
    );
}

#[test]
fn values_have_exactly_the_configured_size() {
    let corpus = b"to be or not to be, that is the question".to_vec();
    for size in [0usize, 1, 100, 4096] {
        let compressible = make_value(size, true, &corpus);
        assert_eq!(compressible.len(), size);
        assert!(compressible.iter().all(|b| corpus.contains(b)));
        let random = make_value(size, false, &corpus);
        assert_eq!(random.len(), size);
    }
}

#[test]
fn random_values_are_not_copies_of_the_input() {
    // a wrapper that handed its buffer back unfilled would return all zeros
    let corpus = Vec::new();
    let v = make_value(4096, false, &corpus);
    assert!(v.iter().any(|b| *b != 0));
}
