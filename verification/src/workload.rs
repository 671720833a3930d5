//! The workload engine: one state machine per workload kind. A stream draws
//! a percentage to pick the operation of the iteration and a zipfian index
//! to pick the key, then applies the operation to the instrumented store.
//! Both draws enter as plain values, so every decision taken from them is
//! verified for each value the contracts admit.

use crate::config::{config_valid, RunConfig, Workload};
use crate::counters::{sat_add, Counters};
use crate::digits::{lex_leq, lex_less};
use crate::keys::{
    key_len_spec, lemma_load_key_injective, load_key, load_key_spec, map_key, map_key_spec,
    text_key, text_key_spec,
};
use crate::store::{entry_views, lower_bound, Engine};
use vstd::arithmetic::mul::{lemma_mul_inequality, lemma_mul_is_distributive_add_other_way};
use vstd::prelude::*;

verus! {

/// The operation kinds a run-phase iteration can draw.
#[derive(Copy, Clone, Debug, PartialEq, Eq, Structural)]
pub enum OpKind {
    /// Point read of an existing key.
    Read,
    /// Write of a fresh key beyond the loaded population.
    Insert,
    /// Write over an existing key; adds no logical data.
    Overwrite,
    /// Range scan of ten records.
    Scan,
}

/// The per-workload operation mix over a percentage draw.
pub open spec fn op_kind_spec(w: Workload, pct: u8) -> OpKind {
    match w {
        Workload::TaskA => if pct < 50 {
            OpKind::Overwrite
        } else {
            OpKind::Read
        },
        Workload::TaskB => if pct < 5 {
            OpKind::Overwrite
        } else {
            OpKind::Read
        },
        Workload::TaskC => OpKind::Read,
        Workload::TaskD => if pct < 5 {
            OpKind::Insert
        } else {
            OpKind::Scan
        },
        Workload::TaskE => if pct < 95 {
            OpKind::Insert
        } else {
            OpKind::Scan
        },
        Workload::TaskF => if pct < 5 {
            OpKind::Insert
        } else {
            OpKind::Read
        },
        Workload::TaskG => if pct < 95 {
            OpKind::Insert
        } else {
            OpKind::Read
        },
        Workload::TaskH => if pct < 50 {
            OpKind::Read
        } else if pct < 70 {
            OpKind::Scan
        } else if pct < 80 {
            OpKind::Insert
        } else {
            OpKind::Overwrite
        },
    }
}

/// Picks the operation of one iteration per the workload's mix table.
pub fn choose_op(w: Workload, pct: u8) -> (r: OpKind)
    requires
        pct < 100,
    ensures
        r == op_kind_spec(w, pct),
{
    match w {
        Workload::TaskA => if pct < 50 {
            OpKind::Overwrite
        } else {
            OpKind::Read
        },
        Workload::TaskB => if pct < 5 {
            OpKind::Overwrite
        } else {
            OpKind::Read
        },
        Workload::TaskC => OpKind::Read,
        Workload::TaskD => if pct < 5 {
            OpKind::Insert
        } else {
            OpKind::Scan
        },
        Workload::TaskE => if pct < 95 {
            OpKind::Insert
        } else {
            OpKind::Scan
        },
        Workload::TaskF => if pct < 5 {
            OpKind::Insert
        } else {
            OpKind::Read
        },
        Workload::TaskG => if pct < 95 {
            OpKind::Insert
        } else {
            OpKind::Read
        },
        Workload::TaskH => if pct < 50 {
            OpKind::Read
        } else if pct < 70 {
            OpKind::Scan
        } else if pct < 80 {
            OpKind::Insert
        } else {
            OpKind::Overwrite
        },
    }
}

/// Draws the iteration's percentage and picks the operation by the mix
/// table; every outcome is one the table allows for the workload.
pub fn draw_op(w: Workload) -> (r: OpKind)
    ensures
        exists|pct: u8| pct < 100 && r == op_kind_spec(w, pct),
{
    let pct = crate::draws::draw_percent();
    choose_op(w, pct)
}

/// A zipfian draw over `population` elements lands in `1..=population`;
/// shifting it down addresses the population as `0..population`.
pub fn zipf_to_index(draw: u64, population: u64) -> (r: u64)
    requires
        population >= 1,
        1 <= draw <= population,
    ensures
        r == draw - 1,
        r < population,
{
    draw - 1
}

/// Read-latest key selection: offset the draw back from the most recent
/// record, so small draws favor recent inserts.
pub fn latest_index(records: u32, draw: u32) -> (r: u32)
    requires
        records >= 2,
        1 <= draw <= records - 1,
    ensures
        r == records - draw,
        1 <= r <= records - 1,
{
    records - draw
}

/// Per-stream state: the partition number and the count of records the
/// stream has appended, seeded with the loaded item count.
#[derive(Copy, Clone, Debug, PartialEq, Eq, Structural)]
pub struct StreamState {
    pub user: u8,
    pub records: u32,
}

/// Size of the population the iteration's zipfian draw ranges over; the
/// draw itself must lie in `1..=population`.
pub open spec fn zipf_population(cfg: RunConfig, st: StreamState) -> u32 {
    match cfg.workload {
        Workload::TaskA | Workload::TaskB | Workload::TaskC => cfg.items,
        Workload::TaskD | Workload::TaskE => 1,
        Workload::TaskF | Workload::TaskG | Workload::TaskH => (st.records - 1) as u32,
    }
}

/// The key an iteration operates on, as decided by the workload table:
/// reads of A/B/C address the loaded population through the zipfian draw;
/// read-latest workloads address `records - draw`; inserts append at
/// `records`; scans start a window behind the newest record.
pub open spec fn planned_key_spec(cfg: RunConfig, st: StreamState, pct: u8, draw: u32) -> Seq<u8> {
    match op_kind_spec(cfg.workload, pct) {
        OpKind::Read => match cfg.workload {
            Workload::TaskC => crate::keys::flat_key_spec(
                map_key_spec((draw - 1) as u32, cfg.random),
            ),
            Workload::TaskA | Workload::TaskB => text_key_spec(
                st.user as nat,
                map_key_spec((draw - 1) as u32, cfg.random),
            ),
            _ => text_key_spec(st.user as nat, map_key_spec((st.records - draw) as u32, cfg.random)),
        },
        OpKind::Insert => text_key_spec(st.user as nat, map_key_spec(st.records, cfg.random)),
        OpKind::Overwrite => match cfg.workload {
            Workload::TaskA | Workload::TaskB => text_key_spec(
                st.user as nat,
                map_key_spec((draw - 1) as u32, cfg.random),
            ),
            _ => text_key_spec(st.user as nat, map_key_spec((st.records - draw) as u32, cfg.random)),
        },
        OpKind::Scan => match cfg.workload {
            Workload::TaskD => text_key_spec(
                st.user as nat,
                if st.records >= 10 {
                    (st.records - 10) as u32
                } else {
                    0
                },
            ),
            Workload::TaskE => text_key_spec(
                st.user as nat,
                if st.records >= 11 {
                    (st.records - 11) as u32
                } else {
                    0
                },
            ),
            _ => text_key_spec(
                st.user as nat,
                map_key_spec(
                    if st.records - draw >= 10 {
                        ((st.records - draw) - 10) as u32
                    } else {
                        0
                    },
                    cfg.random,
                ),
            ),
        },
    }
}

/// One planned operation: its kind and the key (or scan start) it targets.
/// Scans always request ten records.
pub struct Plan {
    pub kind: OpKind,
    pub key: Vec<u8>,
}

/// Decides one run-phase iteration from the two draws: which operation runs,
/// against which key, and how the stream's record counter moves.
pub fn plan_op(cfg: &RunConfig, st: StreamState, pct: u8, draw: u32) -> (r: (Plan, StreamState))
    requires
        config_valid(*cfg),
        st.user < 100,
        st.records >= cfg.items,
        st.records < u32::MAX,
        pct < 100,
        1 <= draw <= zipf_population(*cfg, st),
    ensures
        r.0.kind == op_kind_spec(cfg.workload, pct),
        r.0.key@ == planned_key_spec(*cfg, st, pct, draw),
        r.1.user == st.user,
        r.1.records == if op_kind_spec(cfg.workload, pct) == OpKind::Insert {
            st.records + 1
        } else {
            st.records as int
        },
{
    let kind = choose_op(cfg.workload, pct);
    let key: Vec<u8> = match kind {
        OpKind::Read => match cfg.workload {
            Workload::TaskC => crate::keys::flat_key(map_key(draw - 1, cfg.random)),
            Workload::TaskA | Workload::TaskB => text_key(st.user, map_key(draw - 1, cfg.random)),
            _ => text_key(st.user, map_key(st.records - draw, cfg.random)),
        },
        OpKind::Insert => text_key(st.user, map_key(st.records, cfg.random)),
        OpKind::Overwrite => match cfg.workload {
            Workload::TaskA | Workload::TaskB => text_key(st.user, map_key(draw - 1, cfg.random)),
            _ => text_key(st.user, map_key(st.records - draw, cfg.random)),
        },
        OpKind::Scan => match cfg.workload {
            Workload::TaskD => text_key(
                st.user,
                if st.records >= 10 {
                    st.records - 10
                } else {
                    0
                },
            ),
            Workload::TaskE => text_key(
                st.user,
                if st.records >= 11 {
                    st.records - 11
                } else {
                    0
                },
            ),
            _ => text_key(
                st.user,
                map_key(
                    if st.records - draw >= 10 {
                        (st.records - draw) - 10
                    } else {
                        0
                    },
                    cfg.random,
                ),
            ),
        },
    };
    let next = StreamState {
        user: st.user,
        records: if matches!(kind, OpKind::Insert) {
            st.records + 1
        } else {
            st.records
        },
    };
    (Plan { kind, key }, next)
}

/// The instrumented store: the engine plus the shared atomic counters, so
/// that every workload operation passing through is counted exactly once.
pub struct InstrumentedStore {
    pub engine: Engine,
    pub counters: Counters,
}

impl InstrumentedStore {
    pub fn new() -> (s: Self)
        ensures
            s.engine.wf(),
            s.engine.map_view() == Map::<Seq<u8>, Seq<u8>>::empty(),
            s.engine.durable_map() == Map::<Seq<u8>, Seq<u8>>::empty(),
            s.counters.write_ops == 0,
            s.counters.read_ops == 0,
            s.counters.scan_ops == 0,
            s.counters.delete_ops == 0,
            s.counters.write_latency_sum == 0,
            s.counters.read_latency_sum == 0,
            s.counters.scan_latency_sum == 0,
            s.counters.real_data_size == 0,
    {
        InstrumentedStore { engine: Engine::new(), counters: Counters::new() }
    }

    /// Inserts or overwrites, counting exactly one write.
    pub fn insert(&mut self, key: Vec<u8>, value: Vec<u8>, durable: bool)
        requires
            old(self).engine.wf(),
            old(self).counters.write_ops < u64::MAX,
        ensures
            final(self).engine.wf(),
            final(self).engine.map_view() == old(self).engine.map_view().insert(key@, value@),
            durable ==> final(self).engine.durable_map() == final(self).engine.map_view(),
            !durable ==> final(self).engine.durable_map() == old(self).engine.durable_map(),
            final(self).counters.write_ops == old(self).counters.write_ops + 1,
            final(self).counters.read_ops == old(self).counters.read_ops,
            final(self).counters.scan_ops == old(self).counters.scan_ops,
            final(self).counters.delete_ops == old(self).counters.delete_ops,
            final(self).counters.write_latency_sum == old(self).counters.write_latency_sum,
            final(self).counters.read_latency_sum == old(self).counters.read_latency_sum,
            final(self).counters.scan_latency_sum == old(self).counters.scan_latency_sum,
            final(self).counters.real_data_size == old(self).counters.real_data_size,
    {
        self.engine.put(key, value, durable);
        self.counters.record_write();
    }

    /// Point lookup, counting exactly one read.
    pub fn get(&mut self, key: &Vec<u8>) -> (r: Option<Vec<u8>>)
        requires
            old(self).engine.wf(),
            old(self).counters.read_ops < u64::MAX,
        ensures
            final(self).engine == old(self).engine,
            match r {
                Some(v) => old(self).engine.map_view().contains_key(key@) && v@ == old(self).engine.map_view()[key@],
                None => !old(self).engine.map_view().contains_key(key@),
            },
            final(self).counters.read_ops == old(self).counters.read_ops + 1,
            final(self).counters.write_ops == old(self).counters.write_ops,
            final(self).counters.scan_ops == old(self).counters.scan_ops,
            final(self).counters.delete_ops == old(self).counters.delete_ops,
            final(self).counters.write_latency_sum == old(self).counters.write_latency_sum,
            final(self).counters.read_latency_sum == old(self).counters.read_latency_sum,
            final(self).counters.scan_latency_sum == old(self).counters.scan_latency_sum,
            final(self).counters.real_data_size == old(self).counters.real_data_size,
    {
        let r = self.engine.get(key);
        self.counters.record_read();
        r
    }

    /// Range scan, counting exactly one scan.
    pub fn scan(&mut self, start: &Vec<u8>, limit: usize) -> (r: Vec<(Vec<u8>, Vec<u8>)>)
        requires
            old(self).engine.wf(),
            old(self).counters.scan_ops < u64::MAX,
        ensures
            final(self).engine == old(self).engine,
            ({
                let sv = old(self).engine.seq_view();
                let lb = lower_bound(sv, start@);
                let n = if sv.len() - lb < limit {
                    sv.len() - lb
                } else {
                    limit as int
                };
                &&& entry_views(r@) == sv.subrange(lb, lb + n)
                &&& r@.len() <= limit
                &&& (forall|i: int| 0 <= i < r@.len() ==> lex_leq(start@, (#[trigger] r@[i]).0@))
                &&& (forall|i: int, j: int|
                    0 <= i < j < r@.len() ==> lex_less((#[trigger] r@[i]).0@, (
                    #[trigger] r@[j]).0@))
                &&& (r@.len() < limit ==> forall|q: Seq<u8>|
                    old(self).engine.map_view().contains_key(q) && lex_leq(start@, q)
                        ==> exists|i: int| 0 <= i < r@.len() && (#[trigger] r@[i]).0@ == q)
            }),
            final(self).counters.scan_ops == old(self).counters.scan_ops + 1,
            final(self).counters.write_ops == old(self).counters.write_ops,
            final(self).counters.read_ops == old(self).counters.read_ops,
            final(self).counters.delete_ops == old(self).counters.delete_ops,
            final(self).counters.write_latency_sum == old(self).counters.write_latency_sum,
            final(self).counters.read_latency_sum == old(self).counters.read_latency_sum,
            final(self).counters.scan_latency_sum == old(self).counters.scan_latency_sum,
            final(self).counters.real_data_size == old(self).counters.real_data_size,
    {
        let r = self.engine.scan(start, limit);
        self.counters.record_scan();
        r
    }
}

/// Logical bytes one loaded record accounts for: its key and its value.
pub open spec fn record_bytes_spec(cfg: RunConfig) -> nat {
    key_len_spec(cfg) + cfg.value_size as nat
}

/// `k` is one of the keys the load phase of stream `user` writes for
/// record numbers below `bound`.
pub open spec fn is_loaded_key(cfg: RunConfig, user: nat, bound: u32, k: Seq<u8>) -> bool {
    exists|n: u32| n < bound && k == #[trigger] load_key_spec(cfg, user, n)
}

/// Run-phase point reads of the zipfian-over-population workloads address
/// the loaded population: the planned read key is exactly the key record
/// `draw - 1` was loaded under, so after the load phase such a read finds
/// its record.
pub proof fn lemma_planned_read_is_loaded(cfg: RunConfig, st: StreamState, pct: u8, draw: u32)
    requires
        cfg.workload == Workload::TaskA || cfg.workload == Workload::TaskB || cfg.workload
            == Workload::TaskC,
        op_kind_spec(cfg.workload, pct) == OpKind::Read,
        1 <= draw,
    ensures
        planned_key_spec(cfg, st, pct, draw) == load_key_spec(
            cfg,
            st.user as nat,
            (draw - 1) as u32,
        ),
{
}

/// The load phase of one stream: seeds the store with `items` records under
/// the stream's keys, all writes non-durable, and accounts every loaded byte
/// to the logical dataset size — after it, the store holds exactly the given
/// value under every loaded key.
pub fn load_phase(store: &mut InstrumentedStore, cfg: &RunConfig, user: u8, vals: &Vec<Vec<u8>>)
    requires
        old(store).engine.wf(),
        config_valid(*cfg),
        user < 100,
        vals@.len() == cfg.items,
        forall|i: int| 0 <= i < vals@.len() ==> (#[trigger] vals@[i]@).len() == cfg.value_size,
        old(store).counters.write_ops + cfg.items <= u64::MAX,
        old(store).counters.real_data_size + cfg.items * record_bytes_spec(*cfg) <= u64::MAX,
    ensures
        final(store).engine.wf(),
        forall|n: u32|
            n < cfg.items ==> final(store).engine.map_view().contains_key(
                #[trigger] load_key_spec(*cfg, user as nat, n),
            ) && final(store).engine.map_view()[load_key_spec(*cfg, user as nat, n)]
                == vals@[n as int]@,
        forall|k: Seq<u8>|
            #[trigger] final(store).engine.map_view().contains_key(k) ==> old(
                store,
            ).engine.map_view().contains_key(k) || is_loaded_key(*cfg, user as nat, cfg.items, k),
        final(store).counters.write_ops == old(store).counters.write_ops + cfg.items,
        final(store).counters.real_data_size == old(store).counters.real_data_size + cfg.items
            * record_bytes_spec(*cfg),
        final(store).engine.durable_map() == old(store).engine.durable_map(),
        final(store).counters.read_ops == old(store).counters.read_ops,
        final(store).counters.scan_ops == old(store).counters.scan_ops,
        final(store).counters.delete_ops == old(store).counters.delete_ops,
        final(store).counters.write_latency_sum == old(store).counters.write_latency_sum,
        final(store).counters.read_latency_sum == old(store).counters.read_latency_sum,
        final(store).counters.scan_latency_sum == old(store).counters.scan_latency_sum,
{
    let ghost w0 = old(store).counters.write_ops as nat;
    let ghost r0 = old(store).counters.real_data_size as nat;
    let ghost rec = record_bytes_spec(*cfg);
    let mut n: u32 = 0;
    while n < cfg.items
        invariant
            store.engine.wf(),
            config_valid(*cfg),
            user < 100,
            vals@.len() == cfg.items,
            forall|i: int| 0 <= i < vals@.len() ==> (#[trigger] vals@[i]@).len() == cfg.value_size,
            0 <= n <= cfg.items,
            rec == record_bytes_spec(*cfg),
            w0 + cfg.items <= u64::MAX,
            r0 + cfg.items * rec <= u64::MAX,
            store.counters.write_ops == w0 + n,
            store.counters.real_data_size == r0 + n * rec,
            forall|m: u32|
                m < n ==> store.engine.map_view().contains_key(
                    #[trigger] load_key_spec(*cfg, user as nat, m),
                ) && store.engine.map_view()[load_key_spec(*cfg, user as nat, m)]
                    == vals@[m as int]@,
            forall|k: Seq<u8>|
                #[trigger] store.engine.map_view().contains_key(k) ==> old(
                    store,
                ).engine.map_view().contains_key(k) || is_loaded_key(*cfg, user as nat, n, k),
            store.engine.durable_map() == old(store).engine.durable_map(),
            store.counters.read_ops == old(store).counters.read_ops,
            store.counters.scan_ops == old(store).counters.scan_ops,
            store.counters.delete_ops == old(store).counters.delete_ops,
            store.counters.write_latency_sum == old(store).counters.write_latency_sum,
            store.counters.read_latency_sum == old(store).counters.read_latency_sum,
            store.counters.scan_latency_sum == old(store).counters.scan_latency_sum,
        decreases cfg.items - n,
    {
        proof {
            lemma_mul_inequality(n as int + 1, cfg.items as int, rec as int);
            lemma_mul_is_distributive_add_other_way(rec as int, n as int, 1);
        }
        let key = load_key(cfg, user, n);
        let ghost kview = key@;
        let klen = key.len();
        let value = crate::store::clone_bytes(&vals[n as usize]);
        let vlen = value.len();
        let ghost pre_map = store.engine.map_view();
        store.insert(key, value, false);
        store.counters.add_logical_bytes((klen as u64) + (vlen as u64));
        proof {
            assert forall|m: u32| m < n + 1 implies store.engine.map_view().contains_key(
                #[trigger] load_key_spec(*cfg, user as nat, m),
            ) && store.engine.map_view()[load_key_spec(*cfg, user as nat, m)]
                == vals@[m as int]@ by {
                if m < n {
                    lemma_load_key_injective(*cfg, user as nat, m, n);
                }
            }
            assert forall|k: Seq<u8>| #[trigger] store.engine.map_view().contains_key(
                k,
            ) implies old(store).engine.map_view().contains_key(k) || is_loaded_key(
                *cfg,
                user as nat,
                (n + 1) as u32,
                k,
            ) by {
                if k == kview {
                    assert(n < (n + 1) as u32 && k == load_key_spec(*cfg, user as nat, n));
                } else {
                    assert(pre_map.contains_key(k));
                    if is_loaded_key(*cfg, user as nat, n, k) {
                        let w = choose|m: u32|
                            m < n && k == #[trigger] load_key_spec(*cfg, user as nat, m);
                        assert(w < (n + 1) as u32 && k == load_key_spec(*cfg, user as nat, w));
                    }
                }
            }
            assert(store.counters.real_data_size == r0 + (n + 1) * rec) by {
                assert(klen + vlen == rec);
                assert(sat_add((r0 + n * rec) as nat, (klen + vlen) as nat) == r0 + (n + 1)
                    * rec);
            }
        }
        n = n + 1;
    }
}

/// The round trip the load phase promises: a point read of every loaded key
/// returns exactly the value that was written, counting one read each.
pub fn read_back_all(store: &mut InstrumentedStore, cfg: &RunConfig, user: u8, vals: &Vec<Vec<u8>>)
    requires
        old(store).engine.wf(),
        user < 100,
        vals@.len() == cfg.items,
        forall|n: u32|
            n < cfg.items ==> old(store).engine.map_view().contains_key(
                #[trigger] load_key_spec(*cfg, user as nat, n),
            ) && old(store).engine.map_view()[load_key_spec(*cfg, user as nat, n)]
                == vals@[n as int]@,
        old(store).counters.read_ops + cfg.items <= u64::MAX,
    ensures
        final(store).engine == old(store).engine,
        final(store).counters.read_ops == old(store).counters.read_ops + cfg.items,
        final(store).counters.write_ops == old(store).counters.write_ops,
        final(store).counters.scan_ops == old(store).counters.scan_ops,
        final(store).counters.real_data_size == old(store).counters.real_data_size,
{
    let ghost c0 = old(store).counters.read_ops as nat;
    let mut n: u32 = 0;
    while n < cfg.items
        invariant
            store.engine.wf(),
            store.engine == old(store).engine,
            user < 100,
            vals@.len() == cfg.items,
            0 <= n <= cfg.items,
            c0 + cfg.items <= u64::MAX,
            store.counters.read_ops == c0 + n,
            forall|m: u32|
                m < cfg.items ==> store.engine.map_view().contains_key(
                    #[trigger] load_key_spec(*cfg, user as nat, m),
                ) && store.engine.map_view()[load_key_spec(*cfg, user as nat, m)]
                    == vals@[m as int]@,
            store.counters.write_ops == old(store).counters.write_ops,
            store.counters.scan_ops == old(store).counters.scan_ops,
            store.counters.real_data_size == old(store).counters.real_data_size,
        decreases cfg.items - n,
    {
        let key = load_key(cfg, user, n);
        match store.get(&key) {
            Some(v) => {
                proof {
                    assert(v@ == vals@[n as int]@);
                }
            },
            None => {
                proof {
                    assert(false);
                }
            },
        }
        n = n + 1;
    }
}

/// One run-phase iteration: plans the operation from the draws and applies
/// it, moving exactly one counter and, for writes, the store contents.
pub fn run_step(
    store: &mut InstrumentedStore,
    cfg: &RunConfig,
    st: StreamState,
    pct: u8,
    draw: u32,
    value: Vec<u8>,
) -> (next: StreamState)
    requires
        old(store).engine.wf(),
        config_valid(*cfg),
        st.user < 100,
        st.records >= cfg.items,
        st.records < u32::MAX,
        pct < 100,
        1 <= draw <= zipf_population(*cfg, st),
        value@.len() <= u32::MAX,
        old(store).counters.write_ops < u64::MAX,
        old(store).counters.read_ops < u64::MAX,
        old(store).counters.scan_ops < u64::MAX,
    ensures
        final(store).engine.wf(),
        next.user == st.user,
        next.records == if op_kind_spec(cfg.workload, pct) == OpKind::Insert {
            st.records + 1
        } else {
            st.records as int
        },
        ({
            let kind = op_kind_spec(cfg.workload, pct);
            let key = planned_key_spec(*cfg, st, pct, draw);
            &&& (kind == OpKind::Read ==> final(store).engine == old(store).engine && final(store).counters.read_ops == old(store).counters.read_ops + 1 && final(store).counters.write_ops == old(store).counters.write_ops && final(store).counters.scan_ops == old(store).counters.scan_ops && final(store).counters.real_data_size == old(store).counters.real_data_size)
            &&& (kind == OpKind::Scan ==> final(store).engine == old(store).engine && final(store).counters.scan_ops == old(store).counters.scan_ops + 1 && final(store).counters.write_ops == old(store).counters.write_ops && final(store).counters.read_ops == old(store).counters.read_ops && final(store).counters.real_data_size == old(store).counters.real_data_size)
            &&& ((kind == OpKind::Insert || kind == OpKind::Overwrite) ==> final(store).engine.map_view() == old(store).engine.map_view().insert(key, value@) && final(store).counters.write_ops == old(store).counters.write_ops + 1 && final(store).counters.read_ops == old(store).counters.read_ops && final(store).counters.scan_ops
                == old(store).counters.scan_ops && (cfg.fsync ==> final(store).engine.durable_map()
                == final(store).engine.map_view()) && (!cfg.fsync ==> final(store).engine.durable_map() == old(store).engine.durable_map()))
            &&& (kind == OpKind::Insert ==> final(store).counters.real_data_size as nat == sat_add(
                old(store).counters.real_data_size as nat,
                (key.len() + value@.len()) as nat,
            ))
            &&& (kind == OpKind::Overwrite ==> final(store).counters.real_data_size == old(store).counters.real_data_size)
        }),
{
    let (plan, next) = plan_op(cfg, st, pct, draw);
    match plan.kind {
        OpKind::Read => {
            let _found = store.get(&plan.key);
        },
        OpKind::Insert => {
            let klen = plan.key.len();
            let vlen = value.len();
            proof {
                crate::keys::lemma_key_lens(st.user as nat, map_key_spec(st.records, cfg.random));
                assert(klen == 17);
            }
            store.insert(plan.key, value, cfg.fsync);
            store.counters.add_logical_bytes((klen as u64) + (vlen as u64));
        },
        OpKind::Overwrite => {
            store.insert(plan.key, value, cfg.fsync);
        },
        OpKind::Scan => {
            let _window = store.scan(&plan.key, 10);
        },
    }
    next
}

} // verus!
