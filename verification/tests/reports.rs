use eth_pir::{
    Duration, InitTimings, KeywordRebuildTimings, MemoryReport, RefreshTimings,
};

fn parts(span: Duration) -> (u64, u32) {
    (span.as_secs(), span.subsec_nanos())
}

#[test]
fn nanoseconds_carry_into_seconds() {
    assert_eq!(parts(Duration::new(1, 2)), (1, 2));
    assert_eq!(parts(Duration::new(1, 2_500_000_000)), (3, 500_000_000));
    assert_eq!(parts(Duration::zero()), (0, 0));
    assert_eq!(
        parts(Duration::new(0, 600_000_000).plus(Duration::new(2, 500_000_000))),
        (3, 100_000_000)
    );
}

#[test]
fn a_span_between_readings_never_runs_backwards() {
    let early = Duration::new(5, 900_000_000);
    let late = Duration::new(7, 100_000_000);
    assert_eq!(parts(late.since(early)), (1, 200_000_000));
    assert_eq!(parts(early.since(late)), (0, 0));
    assert_eq!(parts(late.since(late)), (0, 0));
    assert_eq!(
        parts(Duration::new(7, 900_000_000).since(Duration::new(5, 100_000_000))),
        (2, 800_000_000)
    );
}

#[test]
fn init_timings_add_up() {
    let timings = InitTimings {
        keyword_index: Duration::new(1, 0),
        records_scatter: Duration::new(2, 0),
        server_alloc: Duration::new(4, 0),
        database_encode: Duration::new(8, 0),
        query_mask: Duration::new(16, 0),
        offline: Duration::new(32, 0),
        staging_alloc: Duration::new(64, 5),
    };
    assert_eq!(parts(timings.total()), (127, 5));
    assert_eq!(parts(InitTimings::default().total()), (0, 0));
}

#[test]
fn refresh_timings_add_up() {
    let timings = RefreshTimings {
        database_encode: Duration::new(1, 700_000_000),
        precompute: Duration::new(2, 700_000_000),
        install: Duration::new(0, 7),
    };
    assert_eq!(parts(timings.total()), (4, 400_000_007));
    assert_eq!(parts(RefreshTimings::default().total()), (0, 0));
}

#[test]
fn keyword_rebuild_timings_contain_the_refresh() {
    let timings = KeywordRebuildTimings {
        collect_keys: Duration::new(1, 0),
        mphf_rebuild: Duration::new(2, 0),
        permute: Duration::new(4, 0),
        refresh: RefreshTimings {
            database_encode: Duration::new(8, 0),
            precompute: Duration::new(16, 0),
            install: Duration::new(32, 0),
        },
    };
    assert_eq!(parts(timings.total()), (63, 0));
    assert_eq!(parts(KeywordRebuildTimings::default().total()), (0, 0));
}

#[test]
fn a_refresh_holds_a_second_precomputation() {
    let report = MemoryReport {
        serving_database: 1,
        staging_database: 2,
        precomputation: 4,
        online_scratch_pool: 8,
        records: 16,
        keyword_directory: 32,
    };
    assert_eq!(report.total(), 63);
    assert_eq!(report.refresh_peak(), 67);
    assert_eq!(MemoryReport::default().total(), 0);
    assert_eq!(MemoryReport::default().refresh_peak(), 0);
}
