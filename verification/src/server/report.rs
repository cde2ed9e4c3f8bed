//! What a server reports of itself: where the time of its long operations went,
//! and where its memory goes.

use vstd::prelude::*;

verus! {

/// Nanoseconds in a second.
pub const NANOS_PER_SEC: u32 = 1_000_000_000;

/// A span of time: whole seconds, and nanoseconds short of a second.
///
/// Its view is the span in nanoseconds.
#[derive(Clone, Copy, Debug, PartialEq, Eq)]
pub struct Duration {
    secs: u64,
    nanos: u32,
}

impl View for Duration {
    type V = nat;

    closed spec fn view(&self) -> nat {
        (self.secs * NANOS_PER_SEC + self.nanos) as nat
    }
}

/// The longest span a `Duration` holds, in nanoseconds.
pub open spec fn longest_span() -> nat {
    (u64::MAX * NANOS_PER_SEC + (NANOS_PER_SEC - 1)) as nat
}

impl Duration {
    #[verifier::type_invariant]
    spec fn normalized(self) -> bool {
        self.nanos < NANOS_PER_SEC
    }

    /// A span of `secs` seconds and `nanos` nanoseconds.
    pub fn new(secs: u64, nanos: u32) -> (span: Duration)
        requires
            secs * NANOS_PER_SEC + nanos <= longest_span(),
        ensures
            span@ == secs * NANOS_PER_SEC + nanos,
    {
        if nanos < NANOS_PER_SEC {
            Duration { secs, nanos }
        } else {
            let carried: u64 = (nanos / NANOS_PER_SEC) as u64;
            Duration { secs: secs + carried, nanos: nanos % NANOS_PER_SEC }
        }
    }

    /// No time at all.
    pub fn zero() -> (span: Duration)
        ensures
            span@ == 0,
    {
        Duration { secs: 0, nanos: 0 }
    }

    /// The whole seconds of the span.
    pub fn as_secs(&self) -> (secs: u64)
        ensures
            secs == self@ / (NANOS_PER_SEC as nat),
    {
        proof {
            use_type_invariant(self);
        }
        self.secs
    }

    /// What the whole seconds leave of the span, in nanoseconds.
    pub fn subsec_nanos(&self) -> (nanos: u32)
        ensures
            nanos == self@ % (NANOS_PER_SEC as nat),
    {
        proof {
            use_type_invariant(self);
        }
        self.nanos
    }

    /// The span from `earlier` to this one, where both count from one moment; none
    /// where `earlier` is the later of the two.
    pub fn since(self, earlier: Duration) -> (span: Duration)
        ensures
            span@ == (if earlier@ <= self@ {
                self@ - earlier@
            } else {
                0
            }),
    {
        proof {
            use_type_invariant(&self);
            use_type_invariant(&earlier);
        }
        if self.secs < earlier.secs || (self.secs == earlier.secs && self.nanos < earlier.nanos) {
            Duration { secs: 0, nanos: 0 }
        } else if self.nanos >= earlier.nanos {
            Duration { secs: self.secs - earlier.secs, nanos: self.nanos - earlier.nanos }
        } else {
            Duration {
                secs: self.secs - earlier.secs - 1,
                nanos: self.nanos + NANOS_PER_SEC - earlier.nanos,
            }
        }
    }

    /// This span followed by `other`.
    pub fn plus(self, other: Duration) -> (span: Duration)
        requires
            self@ + other@ <= longest_span(),
        ensures
            span@ == self@ + other@,
    {
        proof {
            use_type_invariant(&self);
            use_type_invariant(&other);
        }
        let nanos: u32 = self.nanos + other.nanos;
        if nanos < NANOS_PER_SEC {
            Duration { secs: self.secs + other.secs, nanos }
        } else {
            Duration { secs: self.secs + other.secs + 1, nanos: nanos - NANOS_PER_SEC }
        }
    }
}

/// Whether `span` is the time from the reading `start` to the reading `end`.
pub open spec fn lasted(span: Duration, start: Duration, end: Duration) -> bool {
    span@ == if start@ <= end@ {
        end@ - start@
    } else {
        0
    }
}

/// Whether `clock` tells the time that `now` says it is, where `now` gives the time
/// at which the outside world is in a given state.
pub open spec fn tells<W, Clock: Fn(W) -> (W, Duration)>(clock: Clock, now: spec_fn(W) -> int) -> bool {
    forall|world: W, reading: (W, Duration)| #[trigger]
        call_ensures(clock, (world,), reading) ==> now(world) <= reading.1@ <= now(reading.0)
}

/// Per-step breakdown of serving records from a PIR server for the first time.
#[derive(Clone, Copy, Debug)]
pub struct DatabaseTimings {
    pub database_encode: Duration,
    pub query_mask: Duration,
    pub offline: Duration,
}

/// Per-step breakdown of what the PIR layer does to get ready to serve.
#[derive(Clone, Copy, Debug)]
pub struct ServingTimings {
    pub server_alloc: Duration,
    pub database_encode: Duration,
    pub query_mask: Duration,
    pub offline: Duration,
    pub staging_alloc: Duration,
}

impl ServingTimings {
    /// The whole of it, in nanoseconds.
    pub open spec fn spent(self) -> nat {
        self.server_alloc@ + self.database_encode@ + self.query_mask@ + self.offline@
            + self.staging_alloc@
    }
}

/// Per-step breakdown of building a server.
#[derive(Clone, Copy, Debug)]
pub struct InitTimings {
    pub keyword_index: Duration,
    pub records_scatter: Duration,
    pub server_alloc: Duration,
    pub database_encode: Duration,
    pub query_mask: Duration,
    pub offline: Duration,
    pub staging_alloc: Duration,
}

impl InitTimings {
    /// The whole of it, in nanoseconds.
    pub open spec fn spent(self) -> nat {
        self.keyword_index@ + self.records_scatter@ + self.server_alloc@ + self.database_encode@
            + self.query_mask@ + self.offline@ + self.staging_alloc@
    }

    pub fn total(&self) -> (span: Duration)
        requires
            self.spent() <= longest_span(),
        ensures
            span@ == self.spent(),
            span@ == self.keyword_index@ + self.records_scatter@ + self.server_alloc@
                + self.database_encode@ + self.query_mask@ + self.offline@ + self.staging_alloc@,
    {
        self.keyword_index.plus(self.records_scatter).plus(self.server_alloc).plus(
            self.database_encode,
        ).plus(self.query_mask).plus(self.offline).plus(self.staging_alloc)
    }
}

impl Default for InitTimings {
    fn default() -> (timings: Self)
        ensures
            timings.keyword_index@ == 0,
            timings.records_scatter@ == 0,
            timings.server_alloc@ == 0,
            timings.database_encode@ == 0,
            timings.query_mask@ == 0,
            timings.offline@ == 0,
            timings.staging_alloc@ == 0,
    {
        InitTimings {
            keyword_index: Duration::zero(),
            records_scatter: Duration::zero(),
            server_alloc: Duration::zero(),
            database_encode: Duration::zero(),
            query_mask: Duration::zero(),
            offline: Duration::zero(),
            staging_alloc: Duration::zero(),
        }
    }
}

/// Per-step breakdown of a database rebuild.
#[derive(Clone, Copy, Debug)]
pub struct RefreshTimings {
    pub database_encode: Duration,
    pub precompute: Duration,
    pub install: Duration,
}

impl RefreshTimings {
    /// The whole of it, in nanoseconds.
    pub open spec fn spent(self) -> nat {
        self.database_encode@ + self.precompute@ + self.install@
    }

    pub fn total(&self) -> (span: Duration)
        requires
            self.spent() <= longest_span(),
        ensures
            span@ == self.spent(),
            span@ == self.database_encode@ + self.precompute@ + self.install@,
    {
        self.database_encode.plus(self.precompute).plus(self.install)
    }
}

impl Default for RefreshTimings {
    fn default() -> (timings: Self)
        ensures
            timings.database_encode@ == 0,
            timings.precompute@ == 0,
            timings.install@ == 0,
    {
        RefreshTimings {
            database_encode: Duration::zero(),
            precompute: Duration::zero(),
            install: Duration::zero(),
        }
    }
}

/// Per-step breakdown of a keyword-index rebuild.
#[derive(Clone, Copy, Debug)]
pub struct KeywordRebuildTimings {
    pub collect_keys: Duration,
    pub mphf_rebuild: Duration,
    pub permute: Duration,
    pub refresh: RefreshTimings,
}

impl KeywordRebuildTimings {
    /// The whole of it, in nanoseconds.
    pub open spec fn spent(self) -> nat {
        self.collect_keys@ + self.mphf_rebuild@ + self.permute@ + self.refresh.spent()
    }

    pub fn total(&self) -> (span: Duration)
        requires
            self.spent() <= longest_span(),
        ensures
            span@ == self.spent(),
            span@ == self.collect_keys@ + self.mphf_rebuild@ + self.permute@
                + self.refresh.database_encode@ + self.refresh.precompute@
                + self.refresh.install@,
    {
        self.collect_keys.plus(self.mphf_rebuild).plus(self.permute).plus(self.refresh.total())
    }
}

impl Default for KeywordRebuildTimings {
    fn default() -> (timings: Self)
        ensures
            timings.collect_keys@ == 0,
            timings.mphf_rebuild@ == 0,
            timings.permute@ == 0,
            timings.refresh.spent() == 0,
    {
        KeywordRebuildTimings {
            collect_keys: Duration::zero(),
            mphf_rebuild: Duration::zero(),
            permute: Duration::zero(),
            refresh: RefreshTimings::default(),
        }
    }
}

/// The memory that the serving side of the PIR layer holds, in bytes.
#[derive(Clone, Copy, Debug)]
pub struct ServingMemory {
    pub database: usize,
    pub precomputation: usize,
    pub online_scratch_pool: usize,
}

/// Where a running server's memory goes, in bytes.
#[derive(Clone, Copy, Debug)]
pub struct MemoryReport {
    pub serving_database: usize,
    pub staging_database: usize,
    pub precomputation: usize,
    pub online_scratch_pool: usize,
    pub records: usize,
    pub keyword_directory: usize,
}

impl MemoryReport {
    /// What the server holds in its steady state.
    pub open spec fn steady(self) -> nat {
        (self.serving_database + self.staging_database + self.precomputation
            + self.online_scratch_pool + self.records + self.keyword_directory) as nat
    }

    pub fn total(&self) -> (bytes: usize)
        requires
            self.steady() <= usize::MAX,
        ensures
            bytes == self.steady(),
            bytes == self.serving_database + self.staging_database + self.precomputation
                + self.online_scratch_pool + self.records + self.keyword_directory,
    {
        self.serving_database + self.staging_database + self.precomputation
            + self.online_scratch_pool + self.records + self.keyword_directory
    }

    /// The most the server holds during a refresh, when a second precomputation
    /// stands beside the one in use.
    pub fn refresh_peak(&self) -> (bytes: usize)
        requires
            self.steady() + self.precomputation <= usize::MAX,
        ensures
            bytes == self.steady() + self.precomputation,
            bytes == self.serving_database + self.staging_database + 2 * self.precomputation
                + self.online_scratch_pool + self.records + self.keyword_directory,
    {
        self.total() + self.precomputation
    }
}

impl Default for MemoryReport {
    fn default() -> (report: Self)
        ensures
            report == (MemoryReport {
                serving_database: 0,
                staging_database: 0,
                precomputation: 0,
                online_scratch_pool: 0,
                records: 0,
                keyword_directory: 0,
            }),
    {
        MemoryReport {
            serving_database: 0,
            staging_database: 0,
            precomputation: 0,
            online_scratch_pool: 0,
            records: 0,
            keyword_directory: 0,
        }
    }
}

/// A step that started at one reading of the clock and ended at a later one lasted
/// exactly as long as brings the one to the other.
pub proof fn law_a_step_bridges_its_readings(span: Duration, start: Duration, end: Duration)
    requires
        lasted(span, start, end),
    ensures
        start@ <= end@ ==> start@ + span@ == end@,
        end@ < start@ ==> span@ == 0,
{
}

} // verus!
