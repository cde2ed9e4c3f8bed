//! What holds of every server that is set up: what it serves, why setting it up may
//! fail, and where the time goes.

use vstd::prelude::*;

use crate::error::{EthPirError, KeywordError, PirError};
use crate::record::{Address, Record, RecordCodec};
use crate::server::keyword::DirectoryState;
use crate::server::laws;
use crate::server::records;
use crate::server::report::{DatabaseTimings, Duration, InitTimings, ServingTimings};
use crate::server::service;
use crate::server::ServerView;
use crate::shape::{Config, DatabaseLayout};

verus! {

/// Whether the steps of setting up the PIR layer do what they are meant to, and leave
/// a trace: setting a server up fixes its shape, encoding gives it a database, and
/// reading the clock leaves everything as it is.
pub open spec fn sets_up<W, A, E, M, O, N, Clock>(
    trace: spec_fn(W) -> Seq<int>,
    shape: spec_fn(W) -> (Config, DatabaseLayout),
    database: spec_fn(W) -> Seq<Record>,
    alloc: A,
    encode: E,
    mask: M,
    offline: O,
    stage: N,
    clock: Clock,
) -> bool where
    A: FnOnce(W, Config, DatabaseLayout) -> (W, Result<(), PirError>),
    E: FnOnce(W, &Vec<Record>) -> (W, Result<(), PirError>),
    M: FnOnce(W) -> W,
    O: FnOnce(W) -> W,
    N: FnOnce(W) -> W,
    Clock: Fn(W) -> (W, Duration),
 {
    &&& forall|w: W, c: Config, l: DatabaseLayout, made: (W, Result<(), PirError>)| #[trigger]
        call_ensures(alloc, (w, c, l), made) ==> trace(made.0) == trace(w).push(1) && (
        made.1 is Ok ==> shape(made.0) == (c, l))
    &&& forall|w: W, d: Vec<Record>, encoded: (W, Result<(), PirError>)| #[trigger]
        call_ensures(encode, (w, &d), encoded) ==> trace(encoded.0) == trace(w).push(2) && shape(
            encoded.0,
        ) == shape(w) && (encoded.1 is Ok ==> database(encoded.0) == d@)
    &&& forall|w: W, masked: W| #[trigger]
        call_ensures(mask, (w,), masked) ==> trace(masked) == trace(w).push(3) && shape(masked)
            == shape(w) && database(masked) == database(w)
    &&& forall|w: W, ready: W| #[trigger]
        call_ensures(offline, (w,), ready) ==> trace(ready) == trace(w).push(4) && shape(ready)
            == shape(w) && database(ready) == database(w)
    &&& forall|w: W, ready: W| #[trigger]
        call_ensures(stage, (w,), ready) ==> trace(ready) == trace(w).push(5) && shape(ready)
            == shape(w) && database(ready) == database(w)
    &&& forall|w: W, reading: (W, Duration)| #[trigger]
        call_ensures(clock, (w,), reading) ==> trace(reading.0) == trace(w) && shape(reading.0)
            == shape(w) && database(reading.0) == database(w)
}

/// The PIR layer that was made ready has the shape that was asked for and serves
/// exactly the records that were handed to it, whatever their number: a server was
/// set up, the records encoded, the query mask generated, the offline phase run and
/// the staging database set up, each once, in this order, and nothing else.
pub proof fn law_ready_layer_serves_the_records<W, A, E, M, O, N, Clock>(
    trace: spec_fn(W) -> Seq<int>,
    shape: spec_fn(W) -> (Config, DatabaseLayout),
    database: spec_fn(W) -> Seq<Record>,
    world: W,
    config: Config,
    layout: DatabaseLayout,
    data: Seq<Record>,
    alloc: A,
    encode: E,
    mask: M,
    offline: O,
    stage: N,
    clock: Clock,
    after: W,
    timings: ServingTimings,
) where
    A: FnOnce(W, Config, DatabaseLayout) -> (W, Result<(), PirError>),
    E: FnOnce(W, &Vec<Record>) -> (W, Result<(), PirError>),
    M: FnOnce(W) -> W,
    O: FnOnce(W) -> W,
    N: FnOnce(W) -> W,
    Clock: Fn(W) -> (W, Duration),

    requires
        sets_up(trace, shape, database, alloc, encode, mask, offline, stage, clock),
        service::pir_server_gives(
            world,
            config,
            layout,
            data,
            alloc,
            encode,
            mask,
            offline,
            stage,
            clock,
            after,
            Ok(timings),
        ),
    ensures
        database(after) == data,
        shape(after) == (config, layout),
        trace(after) == trace(world) + seq![1int, 2, 3, 4, 5],
{
    assert(trace(world).push(1).push(2).push(3).push(4).push(5) =~= trace(world) + seq![
        1int,
        2,
        3,
        4,
        5,
    ]);
}

/// Making the PIR layer ready fails only where setting the server up or encoding
/// failed, with the PIR layer's error, and no later step is taken then.
pub proof fn law_making_ready_fails_only_where_a_step_fails<W, A, E, M, O, N, Clock>(
    trace: spec_fn(W) -> Seq<int>,
    shape: spec_fn(W) -> (Config, DatabaseLayout),
    database: spec_fn(W) -> Seq<Record>,
    world: W,
    config: Config,
    layout: DatabaseLayout,
    data: Seq<Record>,
    alloc: A,
    encode: E,
    mask: M,
    offline: O,
    stage: N,
    clock: Clock,
    after: W,
    e: EthPirError,
) where
    A: FnOnce(W, Config, DatabaseLayout) -> (W, Result<(), PirError>),
    E: FnOnce(W, &Vec<Record>) -> (W, Result<(), PirError>),
    M: FnOnce(W) -> W,
    O: FnOnce(W) -> W,
    N: FnOnce(W) -> W,
    Clock: Fn(W) -> (W, Duration),

    requires
        sets_up(trace, shape, database, alloc, encode, mask, offline, stage, clock),
        service::pir_server_gives(
            world,
            config,
            layout,
            data,
            alloc,
            encode,
            mask,
            offline,
            stage,
            clock,
            after,
            Err(e),
        ),
    ensures
        ({
            ||| trace(after) == trace(world) + seq![1int] && exists|
                w: W,
                made: (W, Result<(), PirError>),
            | #[trigger]
                call_ensures(alloc, (w, config, layout), made) && (made.1 matches Err(p) && e
                    == EthPirError::Pir(p))
            ||| trace(after) == trace(world) + seq![1int, 2] && exists|
                w: W,
                d: Vec<Record>,
                encoded: (W, Result<(), PirError>),
            | #[trigger]
                call_ensures(encode, (w, &d), encoded) && d@ == data && (encoded.1 matches Err(p)
                    && e == EthPirError::Pir(p))
        }),
{
    assert(trace(world).push(1) =~= trace(world) + seq![1int]);
    assert(trace(world).push(1).push(2) =~= trace(world) + seq![1int, 2]);
}

/// Making the PIR layer ready succeeds where its steps do, whatever the records.
pub proof fn law_making_ready_succeeds_where_its_steps_do<W, A, E, M, O, N, Clock>(
    world: W,
    config: Config,
    layout: DatabaseLayout,
    data: Seq<Record>,
    alloc: A,
    encode: E,
    mask: M,
    offline: O,
    stage: N,
    clock: Clock,
    after: W,
    outcome: Result<ServingTimings, EthPirError>,
) where
    A: FnOnce(W, Config, DatabaseLayout) -> (W, Result<(), PirError>),
    E: FnOnce(W, &Vec<Record>) -> (W, Result<(), PirError>),
    M: FnOnce(W) -> W,
    O: FnOnce(W) -> W,
    N: FnOnce(W) -> W,
    Clock: Fn(W) -> (W, Duration),

    requires
        service::pir_server_gives(
            world,
            config,
            layout,
            data,
            alloc,
            encode,
            mask,
            offline,
            stage,
            clock,
            after,
            outcome,
        ),
        forall|w: W, made: (W, Result<(), PirError>)| #[trigger]
            call_ensures(alloc, (w, config, layout), made) ==> made.1 is Ok,
        forall|w: W, d: Vec<Record>, encoded: (W, Result<(), PirError>)| #[trigger]
            call_ensures(encode, (w, &d), encoded) ==> encoded.1 is Ok,
    ensures
        outcome is Ok,
{
}

/// Each step of making the PIR layer ready is reported with the time that it took,
/// and with no other's.
pub proof fn law_making_ready_times_each_step<W, A, E, M, O, N, Clock>(
    now: spec_fn(W) -> nat,
    allocating: nat,
    encoding: nat,
    masking: nat,
    preparing: nat,
    staging: nat,
    world: W,
    config: Config,
    layout: DatabaseLayout,
    data: Seq<Record>,
    alloc: A,
    encode: E,
    mask: M,
    offline: O,
    stage: N,
    clock: Clock,
    after: W,
    timings: ServingTimings,
) where
    A: FnOnce(W, Config, DatabaseLayout) -> (W, Result<(), PirError>),
    E: FnOnce(W, &Vec<Record>) -> (W, Result<(), PirError>),
    M: FnOnce(W) -> W,
    O: FnOnce(W) -> W,
    N: FnOnce(W) -> W,
    Clock: Fn(W) -> (W, Duration),

    requires
        forall|w: W, made: (W, Result<(), PirError>)| #[trigger]
            call_ensures(alloc, (w, config, layout), made) ==> now(made.0) == now(w) + allocating,
        forall|w: W, d: Vec<Record>, encoded: (W, Result<(), PirError>)| #[trigger]
            call_ensures(encode, (w, &d), encoded) ==> now(encoded.0) == now(w) + encoding,
        forall|w: W, masked: W| #[trigger]
            call_ensures(mask, (w,), masked) ==> now(masked) == now(w) + masking,
        forall|w: W, ready: W| #[trigger]
            call_ensures(offline, (w,), ready) ==> now(ready) == now(w) + preparing,
        forall|w: W, ready: W| #[trigger]
            call_ensures(stage, (w,), ready) ==> now(ready) == now(w) + staging,
        forall|w: W, reading: (W, Duration)| #[trigger]
            call_ensures(clock, (w,), reading) ==> reading.1@ == now(w) && now(reading.0)
                == now(w),
        service::pir_server_gives(
            world,
            config,
            layout,
            data,
            alloc,
            encode,
            mask,
            offline,
            stage,
            clock,
            after,
            Ok(timings),
        ),
    ensures
        timings.server_alloc@ == allocating,
        timings.database_encode@ == encoding,
        timings.query_mask@ == masking,
        timings.offline@ == preparing,
        timings.staging_alloc@ == staging,
{
}

/// Serving records from a PIR server for the first time encodes exactly those
/// records, then generates the mask, then runs the offline phase; it fails only where
/// encoding failed, with the PIR layer's error, and takes no later step then.
pub proof fn law_first_serving_serves_the_records<W, E, M, O, Clock>(
    trace: spec_fn(W) -> Seq<int>,
    database: spec_fn(W) -> Seq<Record>,
    server: W,
    data: Seq<Record>,
    encode: E,
    mask: M,
    offline: O,
    clock: Clock,
    after: W,
    outcome: Result<DatabaseTimings, EthPirError>,
) where
    E: FnOnce(W, &Vec<Record>) -> (W, Result<(), PirError>),
    M: FnOnce(W) -> W,
    O: FnOnce(W) -> W,
    Clock: Fn(W) -> (W, Duration),

    requires
        forall|w: W, d: Vec<Record>, encoded: (W, Result<(), PirError>)| #[trigger]
            call_ensures(encode, (w, &d), encoded) ==> trace(encoded.0) == trace(w).push(2) && (
            encoded.1 is Ok ==> database(encoded.0) == d@),
        forall|w: W, masked: W| #[trigger]
            call_ensures(mask, (w,), masked) ==> trace(masked) == trace(w).push(3) && database(
                masked,
            ) == database(w),
        forall|w: W, ready: W| #[trigger]
            call_ensures(offline, (w,), ready) ==> trace(ready) == trace(w).push(4) && database(
                ready,
            ) == database(w),
        forall|w: W, reading: (W, Duration)| #[trigger]
            call_ensures(clock, (w,), reading) ==> trace(reading.0) == trace(w) && database(
                reading.0,
            ) == database(w),
        service::first_served(server, data, encode, mask, offline, clock, after, outcome),
    ensures
        outcome is Ok ==> database(after) == data && trace(after) == trace(server) + seq![
            2int,
            3,
            4,
        ],
        outcome matches Err(e) ==> trace(after) == trace(server) + seq![2int] && exists|
            w: W,
            d: Vec<Record>,
            encoded: (W, Result<(), PirError>),
        | #[trigger]
            call_ensures(encode, (w, &d), encoded) && d@ == data && (encoded.1 matches Err(p) && e
                == EthPirError::Pir(p)),
{
    assert(trace(server).push(2) =~= trace(server) + seq![2int]);
    assert(trace(server).push(2).push(3).push(4) =~= trace(server) + seq![2int, 3, 4]);
}

/// A server that was just built serves exactly the records that it holds, whatever
/// their number: the PIR layer was handed them, at the shape that was asked for, and
/// the world that is handed back is the one that call left. There is one record for
/// each entry; the directory was built over the entries' addresses, with generation 0
/// and an empty tail; nothing is pending.
pub proof fn law_init_serves_the_records<C: RecordCodec, W, D, B, X, S, Clock>(
    config: Config,
    layout: DatabaseLayout,
    entries: Seq<(Address, C::Value)>,
    world: W,
    build_directory: B,
    index_all: X,
    build_server: S,
    clock: Clock,
    server: ServerView,
    directory: D,
    left: W,
    timings: InitTimings,
) where
    B: FnOnce(W, Config, DatabaseLayout, &Vec<Address>, u64) -> (W, Result<D, KeywordError>),
    X: FnOnce(&D, &Vec<Address>) -> Vec<usize>,
    S: FnOnce(W, Config, DatabaseLayout, &Vec<Record>) -> (W, Result<ServingTimings, EthPirError>),
    Clock: Fn(W) -> (W, Duration),

    requires
        entries.len() <= usize::MAX,
        forall|keys: Vec<Address>, slots: Vec<usize>| #[trigger]
            call_ensures(index_all, (&directory, &keys), slots) && keys@.len() == entries.len()
                ==> service::slots_fit(slots@, entries.len()),
        service::init_gives::<C, W, D, B, X, S, Clock>(
            config,
            layout,
            entries,
            world,
            build_directory,
            index_all,
            build_server,
            clock,
            Ok((server, directory, left, timings)),
        ),
    ensures
        server.records.len() == entries.len(),
        server.served == server.records,
        server.pending == 0,
        server.directory == (DirectoryState {
            version: 0,
            mphf_len: entries.len() as usize,
            delta_len: 0,
        }),
        exists|w: W, handed: Vec<Record>, ready: (W, Result<ServingTimings, EthPirError>)|
            #![trigger call_ensures(build_server, (w, config, layout, &handed), ready)]
            {
                &&& call_ensures(build_server, (w, config, layout, &handed), ready)
                &&& handed@ == server.records
                &&& ready.0 == left
                &&& ready.1 matches Ok(steps) && timings.server_alloc == steps.server_alloc
                    && timings.database_encode == steps.database_encode && timings.query_mask
                    == steps.query_mask && timings.offline == steps.offline
                    && timings.staging_alloc == steps.staging_alloc
            },
        exists|w: W, keys: Vec<Address>, built: (W, Result<D, KeywordError>)|
            #![trigger call_ensures(build_directory, (w, config, layout, &keys, 0u64), built)]
            {
                &&& call_ensures(build_directory, (w, config, layout, &keys, 0u64), built)
                &&& built.1 == Ok::<D, KeywordError>(directory)
                &&& keys@.len() == entries.len()
                &&& forall|i: int| 0 <= i < entries.len() ==> #[trigger] keys@[i] == entries[i].0
            },
{
    let r = laws::built_by::<C, W, D, B, X, S, Clock>(
        config,
        layout,
        entries,
        world,
        build_directory,
        index_all,
        build_server,
        clock,
        server,
        directory,
        left,
        timings,
    );
    records::law_addresses_are_those_of_the_entries(entries);
    let slots = r.4@;
    assert(service::slots_fit(slots, entries.len()));
    let placements = records::placements_for::<C>(entries, slots);
    assert forall|i: int| 0 <= i < placements.len() implies (#[trigger] placements[i]).0
        < entries.len() by {
        assert(slots[i] < entries.len());
    }
    records::lemma_scattered_len(records::vacant_records(entries.len()), placements);
    let ready = (left, Ok::<ServingTimings, EthPirError>(service::serving_steps(timings)));
    let handed = choose|handed: Vec<Record>|
        handed@ == server.records && #[trigger] call_ensures(
            build_server,
            (r.5.0, config, layout, &handed),
            ready,
        );
    assert(call_ensures(build_server, (r.5.0, config, layout, &handed), ready));
    let built = (r.2, Ok::<D, KeywordError>(directory));
    assert(call_ensures(build_directory, (r.0.0, config, layout, &r.1, 0u64), built));
}

/// Where the PIR layer serves what it is handed, a server that was just built has its
/// own records served.
pub proof fn law_init_puts_the_records_into_the_database<C: RecordCodec, W, D, B, X, S, Clock>(
    database: spec_fn(W) -> Seq<Record>,
    config: Config,
    layout: DatabaseLayout,
    entries: Seq<(Address, C::Value)>,
    world: W,
    build_directory: B,
    index_all: X,
    build_server: S,
    clock: Clock,
    server: ServerView,
    directory: D,
    left: W,
    timings: InitTimings,
) where
    B: FnOnce(W, Config, DatabaseLayout, &Vec<Address>, u64) -> (W, Result<D, KeywordError>),
    X: FnOnce(&D, &Vec<Address>) -> Vec<usize>,
    S: FnOnce(W, Config, DatabaseLayout, &Vec<Record>) -> (W, Result<ServingTimings, EthPirError>),
    Clock: Fn(W) -> (W, Duration),

    requires
        forall|w: W, handed: Vec<Record>, ready: (W, Result<ServingTimings, EthPirError>)|
            #[trigger]
            call_ensures(build_server, (w, config, layout, &handed), ready) && ready.1 is Ok
                ==> database(ready.0) == handed@,
        service::init_gives::<C, W, D, B, X, S, Clock>(
            config,
            layout,
            entries,
            world,
            build_directory,
            index_all,
            build_server,
            clock,
            Ok((server, directory, left, timings)),
        ),
    ensures
        database(left) == server.records,
{
    let r = laws::built_by::<C, W, D, B, X, S, Clock>(
        config,
        layout,
        entries,
        world,
        build_directory,
        index_all,
        build_server,
        clock,
        server,
        directory,
        left,
        timings,
    );
}

/// Building a server fails only where building the directory or making the PIR layer
/// ready failed, with what that call said.
pub proof fn law_init_fails_only_where_a_call_fails<C: RecordCodec, W, D, B, X, S, Clock>(
    config: Config,
    layout: DatabaseLayout,
    entries: Seq<(Address, C::Value)>,
    world: W,
    build_directory: B,
    index_all: X,
    build_server: S,
    clock: Clock,
    e: EthPirError,
) where
    B: FnOnce(W, Config, DatabaseLayout, &Vec<Address>, u64) -> (W, Result<D, KeywordError>),
    X: FnOnce(&D, &Vec<Address>) -> Vec<usize>,
    S: FnOnce(W, Config, DatabaseLayout, &Vec<Record>) -> (W, Result<ServingTimings, EthPirError>),
    Clock: Fn(W) -> (W, Duration),

    requires
        service::init_gives::<C, W, D, B, X, S, Clock>(
            config,
            layout,
            entries,
            world,
            build_directory,
            index_all,
            build_server,
            clock,
            Err::<(ServerView, D, W, InitTimings), EthPirError>(e),
        ),
    ensures
        ({
            ||| exists|w: W, keys: Vec<Address>, built: (W, Result<D, KeywordError>)| #[trigger]
                call_ensures(build_directory, (w, config, layout, &keys, 0u64), built) && (
                built.1 matches Err(k) && e == EthPirError::Keyword(k))
            ||| exists|w: W, handed: Vec<Record>, ready: (W, Result<ServingTimings, EthPirError>)|
                #[trigger]
                call_ensures(build_server, (w, config, layout, &handed), ready) && ready.1
                    == Err::<ServingTimings, EthPirError>(e)
        }),
{
}

/// Building a server succeeds where its calls do, whatever the entries.
pub proof fn law_init_succeeds_where_its_calls_do<C: RecordCodec, W, D, B, X, S, Clock>(
    config: Config,
    layout: DatabaseLayout,
    entries: Seq<(Address, C::Value)>,
    world: W,
    build_directory: B,
    index_all: X,
    build_server: S,
    clock: Clock,
    outcome: Result<(ServerView, D, W, InitTimings), EthPirError>,
) where
    B: FnOnce(W, Config, DatabaseLayout, &Vec<Address>, u64) -> (W, Result<D, KeywordError>),
    X: FnOnce(&D, &Vec<Address>) -> Vec<usize>,
    S: FnOnce(W, Config, DatabaseLayout, &Vec<Record>) -> (W, Result<ServingTimings, EthPirError>),
    Clock: Fn(W) -> (W, Duration),

    requires
        service::init_gives::<C, W, D, B, X, S, Clock>(
            config,
            layout,
            entries,
            world,
            build_directory,
            index_all,
            build_server,
            clock,
            outcome,
        ),
        forall|w: W, keys: Vec<Address>, built: (W, Result<D, KeywordError>)| #[trigger]
            call_ensures(build_directory, (w, config, layout, &keys, 0u64), built) ==> built.1 is Ok,
        forall|w: W, handed: Vec<Record>, ready: (W, Result<ServingTimings, EthPirError>)|
            #[trigger]
            call_ensures(build_server, (w, config, layout, &handed), ready) ==> ready.1 is Ok,
    ensures
        outcome is Ok,
{
}

/// The time that building the directory took is reported as that of the keyword
/// index, and no other call's time as that of placing the records.
pub proof fn law_init_times_each_step<C: RecordCodec, W, D, B, X, S, Clock>(
    now: spec_fn(W) -> nat,
    building: nat,
    config: Config,
    layout: DatabaseLayout,
    entries: Seq<(Address, C::Value)>,
    world: W,
    build_directory: B,
    index_all: X,
    build_server: S,
    clock: Clock,
    server: ServerView,
    directory: D,
    left: W,
    timings: InitTimings,
) where
    B: FnOnce(W, Config, DatabaseLayout, &Vec<Address>, u64) -> (W, Result<D, KeywordError>),
    X: FnOnce(&D, &Vec<Address>) -> Vec<usize>,
    S: FnOnce(W, Config, DatabaseLayout, &Vec<Record>) -> (W, Result<ServingTimings, EthPirError>),
    Clock: Fn(W) -> (W, Duration),

    requires
        forall|w: W, keys: Vec<Address>, built: (W, Result<D, KeywordError>)| #[trigger]
            call_ensures(build_directory, (w, config, layout, &keys, 0u64), built) ==> now(built.0)
                == now(w) + building,
        forall|w: W, reading: (W, Duration)| #[trigger]
            call_ensures(clock, (w,), reading) ==> reading.1@ == now(w) && now(reading.0)
                == now(w),
        service::init_gives::<C, W, D, B, X, S, Clock>(
            config,
            layout,
            entries,
            world,
            build_directory,
            index_all,
            build_server,
            clock,
            Ok((server, directory, left, timings)),
        ),
    ensures
        timings.keyword_index@ == building,
        timings.records_scatter@ == 0,
{
    let r = laws::built_by::<C, W, D, B, X, S, Clock>(
        config,
        layout,
        entries,
        world,
        build_directory,
        index_all,
        build_server,
        clock,
        server,
        directory,
        left,
        timings,
    );
}

} // verus!
