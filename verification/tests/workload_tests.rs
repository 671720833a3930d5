use rust_storage_bench::config::{Backend, LsmCompaction, RunConfig, Workload};
use rust_storage_bench::keys::{load_key, text_key};
use rust_storage_bench::workload::{
    choose_op, latest_index, load_phase, plan_op, read_back_all, run_step, zipf_to_index,
    InstrumentedStore, OpKind, StreamState,
};

fn base_cfg(workload: Workload, items: u32, value_size: u32) -> RunConfig {
    RunConfig {
        backend: Backend::Fjall,
        workload,
        threads: 1,
        items,
        key_size: 64,
        value_size,
        compressible_value: false,
        lsm_block_size: 4096,
        lsm_compaction: LsmCompaction::Leveled,
        cache_size: 512_000_000,
        write_buffer_size: 64_000_000,
        fsync: false,
        minutes: 1,
        random: false,
        zipf_exponent_milli: 990,
    }
}

fn vals(items: u32, value_size: u32) -> Vec<Vec<u8>> {
    (0..items).map(|i| vec![(i % 251) as u8; value_size as usize]).collect()
}

#[test]
fn op_mix_task_a_is_half_and_half() {
    assert_eq!(choose_op(Workload::TaskA, 0), OpKind::Overwrite);
    assert_eq!(choose_op(Workload::TaskA, 49), OpKind::Overwrite);
    assert_eq!(choose_op(Workload::TaskA, 50), OpKind::Read);
    assert_eq!(choose_op(Workload::TaskA, 99), OpKind::Read);
}

#[test]
fn op_mix_task_b_reads_mostly() {
    assert_eq!(choose_op(Workload::TaskB, 4), OpKind::Overwrite);
    assert_eq!(choose_op(Workload::TaskB, 5), OpKind::Read);
}

#[test]
fn op_mix_task_c_reads_only() {
    for pct in 0..100u8 {
        assert_eq!(choose_op(Workload::TaskC, pct), OpKind::Read);
    }
}

#[test]
fn op_mix_read_latest_tasks() {
    assert_eq!(choose_op(Workload::TaskD, 4), OpKind::Insert);
    assert_eq!(choose_op(Workload::TaskD, 5), OpKind::Scan);
    assert_eq!(choose_op(Workload::TaskE, 94), OpKind::Insert);
    assert_eq!(choose_op(Workload::TaskE, 95), OpKind::Scan);
    assert_eq!(choose_op(Workload::TaskF, 4), OpKind::Insert);
    assert_eq!(choose_op(Workload::TaskF, 5), OpKind::Read);
    assert_eq!(choose_op(Workload::TaskG, 94), OpKind::Insert);
    assert_eq!(choose_op(Workload::TaskG, 95), OpKind::Read);
}

#[test]
fn op_mix_task_h_splits_three_ways() {
    assert_eq!(choose_op(Workload::TaskH, 0), OpKind::Read);
    assert_eq!(choose_op(Workload::TaskH, 49), OpKind::Read);
    assert_eq!(choose_op(Workload::TaskH, 50), OpKind::Scan);
    assert_eq!(choose_op(Workload::TaskH, 69), OpKind::Scan);
    assert_eq!(choose_op(Workload::TaskH, 70), OpKind::Insert);
    assert_eq!(choose_op(Workload::TaskH, 79), OpKind::Insert);
    assert_eq!(choose_op(Workload::TaskH, 80), OpKind::Overwrite);
    assert_eq!(choose_op(Workload::TaskH, 99), OpKind::Overwrite);
}

#[test]
fn zipf_index_shifts_into_population() {
    assert_eq!(zipf_to_index(1, 100), 0);
    assert_eq!(zipf_to_index(100, 100), 99);
    assert_eq!(latest_index(1000, 1), 999);
    assert_eq!(latest_index(1000, 999), 1);
}

#[test]
fn plan_op_overwrite_targets_loaded_population() {
    let cfg = base_cfg(Workload::TaskA, 5, 8);
    let st = StreamState { user: 2, records: 5 };
    let (plan, next) = plan_op(&cfg, st, 10, 3);
    assert_eq!(plan.kind, OpKind::Overwrite);
    assert_eq!(plan.key, text_key(2, 2));
    assert_eq!(next.records, 5);
}

#[test]
fn plan_op_insert_appends_and_advances() {
    let cfg = base_cfg(Workload::TaskD, 5, 8);
    let st = StreamState { user: 0, records: 7 };
    let (plan, next) = plan_op(&cfg, st, 0, 1);
    assert_eq!(plan.kind, OpKind::Insert);
    assert_eq!(plan.key, text_key(0, 7));
    assert_eq!(next.records, 8);
}

#[test]
fn plan_op_scan_starts_behind_tail() {
    let cfg = base_cfg(Workload::TaskD, 5, 8);
    let st = StreamState { user: 1, records: 25 };
    let (plan, _) = plan_op(&cfg, st, 50, 1);
    assert_eq!(plan.kind, OpKind::Scan);
    assert_eq!(plan.key, text_key(1, 15));
}

#[test]
fn load_phase_round_trips_every_key() {
    let cfg = base_cfg(Workload::TaskA, 50, 8);
    let values = vals(50, 8);
    let mut store = InstrumentedStore::new();
    load_phase(&mut store, &cfg, 0, &values);
    assert_eq!(store.counters.write_ops, 50);
    assert_eq!(store.counters.real_data_size, 50 * (17 + 8));
    for n in 0..50u32 {
        let key = load_key(&cfg, 0, n);
        assert_eq!(store.get(&key), Some(values[n as usize].clone()));
    }
}

#[test]
fn counters_count_each_operation_exactly_once() {
    let cfg = base_cfg(Workload::TaskA, 10, 4);
    let values = vals(10, 4);
    let mut store = InstrumentedStore::new();
    load_phase(&mut store, &cfg, 0, &values);
    assert_eq!(store.counters.write_ops, 10);
    let st = StreamState { user: 0, records: 10 };
    for _ in 0..20 {
        // pct 60 draws a read in workload A
        run_step(&mut store, &cfg, st, 60, 1, vec![0u8; 4]);
    }
    assert_eq!(store.counters.read_ops, 20);
    for _ in 0..7 {
        // pct 10 draws an overwrite in workload A
        run_step(&mut store, &cfg, st, 10, 1, vec![0u8; 4]);
    }
    assert_eq!(store.counters.write_ops, 17);
    assert_eq!(store.counters.read_ops, 20);
    assert_eq!(store.counters.scan_ops, 0);
    // overwrites add no logical data
    assert_eq!(store.counters.real_data_size, 10 * (17 + 4));
}

#[test]
fn scan_steps_bump_only_scan_counter() {
    let cfg = base_cfg(Workload::TaskD, 5, 4);
    let values = vals(5, 4);
    let mut store = InstrumentedStore::new();
    load_phase(&mut store, &cfg, 0, &values);
    let st = StreamState { user: 0, records: 5 };
    for _ in 0..3 {
        // pct 99 draws a scan in workload D
        run_step(&mut store, &cfg, st, 99, 1, vec![0u8; 4]);
    }
    assert_eq!(store.counters.scan_ops, 3);
    assert_eq!(store.counters.write_ops, 5);
    assert_eq!(store.counters.read_ops, 0);
}

#[test]
fn end_to_end_read_only_workload() {
    // workload C with items=1000, value_size=100: after the load phase the
    // logical dataset is exactly 1000 * (8 + 100) bytes and every key reads
    // back a 100-byte value.
    let cfg = base_cfg(Workload::TaskC, 1000, 100);
    let values = vals(1000, 100);
    let mut store = InstrumentedStore::new();
    load_phase(&mut store, &cfg, 0, &values);
    assert_eq!(store.counters.write_ops, 1000);
    assert_eq!(store.counters.real_data_size, 1000 * (8 + 100));
    for n in 0..1000u32 {
        let key = load_key(&cfg, 0, n);
        let got = store.get(&key).expect("loaded key must be present");
        assert_eq!(got.len(), 100);
        assert_eq!(got, values[n as usize]);
    }
    assert_eq!(store.counters.read_ops, 1000);
    // the verified read-back pass agrees
    read_back_all(&mut store, &cfg, 0, &values);
    assert_eq!(store.counters.read_ops, 2000);
}

#[test]
fn run_phase_reads_hit_loaded_keys() {
    let cfg = base_cfg(Workload::TaskC, 20, 4);
    let values = vals(20, 4);
    let mut store = InstrumentedStore::new();
    load_phase(&mut store, &cfg, 0, &values);
    let st = StreamState { user: 0, records: 20 };
    for draw in 1..=20u32 {
        let (plan, _) = plan_op(&cfg, st, 0, draw);
        assert_eq!(plan.kind, OpKind::Read);
        assert!(store.get(&plan.key).is_some(), "read of a loaded key must hit");
    }
}

#[test]
fn scrambled_load_round_trips_too() {
    let mut cfg = base_cfg(Workload::TaskA, 40, 4);
    cfg.random = true;
    let values = vals(40, 4);
    let mut store = InstrumentedStore::new();
    load_phase(&mut store, &cfg, 7, &values);
    for n in 0..40u32 {
        let key = load_key(&cfg, 7, n);
        assert_eq!(store.get(&key), Some(values[n as usize].clone()));
    }
}
