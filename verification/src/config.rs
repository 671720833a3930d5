//! Run configuration: the storage backend under test, the workload kind, and
//! the knobs shared by every operation stream.

use vstd::prelude::*;

verus! {

/// The storage engines a run can target. The set is closed and selected at
/// compile time; each variant is realized by an adapter outside this library.
#[derive(Copy, Clone, Debug, PartialEq, Eq, Structural)]
pub enum Backend {
    Sled,
    Fjall,
    Persy,
    JammDb,
    Redb,
    Nebari,
}

impl Backend {
    /// The engine identifier reported in log records.
    pub open spec fn label_spec(self) -> Seq<char> {
        match self {
            Backend::Sled => "sled 0.34.7"@,
            Backend::Fjall => "fjall 1.2.0"@,
            Backend::Persy => "persy 1.5.0"@,
            Backend::JammDb => "jammdb 0.11.0"@,
            Backend::Redb => "redb 2.1.1"@,
            Backend::Nebari => "nebari 0.5.5"@,
        }
    }

    pub fn label(&self) -> (r: &'static str)
        ensures
            r@ == self.label_spec(),
    {
        match self {
            Backend::Sled => "sled 0.34.7",
            Backend::Fjall => "fjall 1.2.0",
            Backend::Persy => "persy 1.5.0",
            Backend::JammDb => "jammdb 0.11.0",
            Backend::Redb => "redb 2.1.1",
            Backend::Nebari => "nebari 0.5.5",
        }
    }
}

/// The workload kinds, one state machine each: a load phase that seeds the
/// store, then concurrent streams drawing operations from a fixed mix.
#[derive(Copy, Clone, Debug, PartialEq, Eq, Structural)]
pub enum Workload {
    /// Update heavy: 50% write / 50% read, zipfian over the loaded population.
    TaskA,
    /// Read mostly: 5% write / 95% read, zipfian over the loaded population.
    TaskB,
    /// Read only: 100% reads over a flat integer keyspace.
    TaskC,
    /// Read latest with light inserts: 5% insert / 95% scan near the tail.
    TaskD,
    /// Read latest with heavy inserts: 95% insert / 5% scan near the tail.
    TaskE,
    /// Read zipfian with light inserts: 5% insert / 95% point read of recent keys.
    TaskF,
    /// Read zipfian with heavy inserts: 95% insert / 5% point read of recent keys.
    TaskG,
    /// Mixed: 50% point read / 20% scan / 30% write (10% appends, 20% overwrites).
    TaskH,
}

impl Workload {
    pub open spec fn label_spec(self) -> Seq<char> {
        match self {
            Workload::TaskA => "task-a"@,
            Workload::TaskB => "task-b"@,
            Workload::TaskC => "task-c"@,
            Workload::TaskD => "task-d"@,
            Workload::TaskE => "task-e"@,
            Workload::TaskF => "task-f"@,
            Workload::TaskG => "task-g"@,
            Workload::TaskH => "task-h"@,
        }
    }

    pub fn label(&self) -> (r: &'static str)
        ensures
            r@ == self.label_spec(),
    {
        match self {
            Workload::TaskA => "task-a",
            Workload::TaskB => "task-b",
            Workload::TaskC => "task-c",
            Workload::TaskD => "task-d",
            Workload::TaskE => "task-e",
            Workload::TaskF => "task-f",
            Workload::TaskG => "task-g",
            Workload::TaskH => "task-h",
        }
    }
}

/// Compaction strategy handed through to LSM-tree engines.
#[derive(Copy, Clone, Debug, PartialEq, Eq, Structural)]
pub enum LsmCompaction {
    Leveled,
    Tiered,
}

impl LsmCompaction {
    pub open spec fn label_spec(self) -> Seq<char> {
        match self {
            LsmCompaction::Leveled => "LCS"@,
            LsmCompaction::Tiered => "STCS"@,
        }
    }

    pub fn label(&self) -> (r: &'static str)
        ensures
            r@ == self.label_spec(),
    {
        match self {
            LsmCompaction::Leveled => "LCS",
            LsmCompaction::Tiered => "STCS",
        }
    }
}

/// Immutable run configuration, shared read-only by every stream.
///
/// The zipfian skew exponent is carried in thousandths (990 stands for a skew
/// of 0.99) so that the configuration stays in plain integers; only the
/// sampler that consumes it needs the fractional form.
#[derive(Copy, Clone, Debug, PartialEq, Eq, Structural)]
pub struct RunConfig {
    pub backend: Backend,
    pub workload: Workload,
    /// Number of concurrent operation streams.
    pub threads: u8,
    /// Records pre-loaded per stream before the run phase starts.
    pub items: u32,
    /// Advisory key size in bytes; formatted keys are not padded to it.
    pub key_size: u8,
    /// Exact payload size in bytes of every value written.
    pub value_size: u32,
    /// Draw values from a compressible text corpus instead of random bytes.
    pub compressible_value: bool,
    pub lsm_block_size: u16,
    pub lsm_compaction: LsmCompaction,
    pub cache_size: u32,
    pub write_buffer_size: u32,
    /// Make every run-phase write durable before it returns.
    pub fsync: bool,
    /// Wall-clock run duration in minutes.
    pub minutes: u16,
    /// Scramble the keyspace so hot keys spread over the whole range.
    pub random: bool,
    /// Zipfian skew exponent in thousandths.
    pub zipf_exponent_milli: u32,
}

/// An invalid combination of options, rejected before any workload starts.
#[derive(Copy, Clone, Debug, PartialEq, Eq, Structural)]
pub enum ConfigError {
    /// The selected engine cannot honor a per-write durability guarantee.
    DurabilityUnsupported,
    /// Too few records to sample a zipfian index from.
    PopulationTooSmall,
    /// The zipfian skew exponent must be positive.
    SkewNotPositive,
}

impl ConfigError {
    pub open spec fn message_spec(self) -> Seq<char> {
        match self {
            ConfigError::DurabilityUnsupported => "backend cannot fsync every write"@,
            ConfigError::PopulationTooSmall => "need at least 2 preloaded items"@,
            ConfigError::SkewNotPositive => "zipf exponent must be positive"@,
        }
    }

    pub fn message(&self) -> (r: &'static str)
        ensures
            r@ == self.message_spec(),
    {
        match self {
            ConfigError::DurabilityUnsupported => "backend cannot fsync every write",
            ConfigError::PopulationTooSmall => "need at least 2 preloaded items",
            ConfigError::SkewNotPositive => "zipf exponent must be positive",
        }
    }
}

/// Sled only syncs on a timer, so forced per-write durability cannot be
/// honored for any workload that writes during the run phase.
pub open spec fn durability_conflict(cfg: RunConfig) -> bool {
    cfg.fsync && cfg.backend == Backend::Sled && cfg.workload != Workload::TaskC
}

pub open spec fn config_valid(cfg: RunConfig) -> bool {
    &&& !durability_conflict(cfg)
    &&& cfg.items >= 2
    &&& cfg.zipf_exponent_milli > 0
}

/// Validates a configuration once at startup; a run starts only on `Ok`.
pub fn validate(cfg: &RunConfig) -> (r: Result<(), ConfigError>)
    ensures
        r is Ok <==> config_valid(*cfg),
        r == Err::<(), ConfigError>(ConfigError::DurabilityUnsupported) <==> durability_conflict(
            *cfg,
        ),
        r == Err::<(), ConfigError>(ConfigError::PopulationTooSmall) <==> (!durability_conflict(
            *cfg,
        ) && cfg.items < 2),
        r == Err::<(), ConfigError>(ConfigError::SkewNotPositive) <==> (!durability_conflict(*cfg)
            && cfg.items >= 2 && cfg.zipf_exponent_milli == 0),
{
    if cfg.fsync && cfg.backend == Backend::Sled && cfg.workload != Workload::TaskC {
        Err(ConfigError::DurabilityUnsupported)
    } else if cfg.items < 2 {
        Err(ConfigError::PopulationTooSmall)
    } else if cfg.zipf_exponent_milli == 0 {
        Err(ConfigError::SkewNotPositive)
    } else {
        Ok(())
    }
}

} // verus!
