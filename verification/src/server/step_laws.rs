//! What the steps do that starting, restarting and rebuilding a server are made of,
//! stated over the calls that they are given and what they leave.

use vstd::prelude::*;

use std::io::ErrorKind;

use crate::address_map;
use crate::address_map::AddressMap;
use crate::client_laws;
use crate::error::{EthPirError, KeywordError, PirError, WireError};
use crate::record;
use crate::record::{Address, Record, RecordCodec};
use crate::server::init_laws;
use crate::server::keyword::{DirectoryState, RestoreReport};
use crate::server::laws;
use crate::server::rebuild_laws;
use crate::server::records;
use crate::server::report::{
    DatabaseTimings, Duration, InitTimings, KeywordRebuildTimings, RefreshTimings, ServingTimings,
};
use crate::server::restore;
use crate::server::restore_laws;
use crate::server::service;
use crate::server::service::Service;
use crate::server::EthPirServer;
use crate::shape::{Config, DatabaseLayout};

verus! {

/// A server is put together from a directory and its records, with nothing pending.
pub proof fn law_assembled_server_serves_its_records<C: RecordCodec>(
    directory: DirectoryState,
    held: Vec<Record>,
    server: EthPirServer<C>,
)
    requires
        call_ensures(EthPirServer::<C>::assemble, (directory, held), server),
    ensures
        server@.directory == directory,
        server@.records == held@,
        server@.served == held@,
        server@.pending == 0,
{
}

/// The PIR layer that was got ready has the shape asked for and serves the records that
/// it was handed, whatever their number, after each of its steps was taken once and in
/// turn. It fails only where setting it up or encoding did.
pub proof fn law_layer_is_got_ready_for_the_records<W, A, E, M, O, N, Clock>(
    trace: spec_fn(W) -> Seq<int>,
    shape: spec_fn(W) -> (Config, DatabaseLayout),
    database: spec_fn(W) -> Seq<Record>,
    world: W,
    config: Config,
    layout: DatabaseLayout,
    data: Vec<Record>,
    alloc: A,
    encode: E,
    mask: M,
    offline: O,
    stage: N,
    clock: Clock,
    result: (W, Result<ServingTimings, EthPirError>),
    first: (W, Result<DatabaseTimings, EthPirError>),
) where
    A: FnOnce(W, Config, DatabaseLayout) -> (W, Result<(), PirError>),
    E: FnOnce(W, &Vec<Record>) -> (W, Result<(), PirError>),
    M: FnOnce(W) -> W,
    O: FnOnce(W) -> W,
    N: FnOnce(W) -> W,
    Clock: Fn(W) -> (W, Duration),

    requires
        init_laws::sets_up(trace, shape, database, alloc, encode, mask, offline, stage, clock),
    ensures
        call_ensures(
            service::build_pir_server::<W, A, E, M, O, N, Clock>,
            (world, config, layout, &data, alloc, encode, mask, offline, stage, &clock),
            result,
        ) ==> match result.1 {
            Ok(_) => {
                &&& database(result.0) == data@
                &&& shape(result.0) == (config, layout)
                &&& trace(result.0) == trace(world) + seq![1int, 2, 3, 4, 5]
            },
            Err(e) => {
                ||| exists|w: W, made: (W, Result<(), PirError>)| #[trigger]
                    call_ensures(alloc, (w, config, layout), made) && (made.1 matches Err(p) && e
                        == EthPirError::Pir(p))
                ||| exists|w: W, d: Vec<Record>, encoded: (W, Result<(), PirError>)| #[trigger]
                    call_ensures(encode, (w, &d), encoded) && d@ == data@ && (
                    encoded.1 matches Err(p) && e == EthPirError::Pir(p))
            },
        },
        call_ensures(
            service::init_serving_database::<W, E, M, O, Clock>,
            (world, &data, encode, mask, offline, &clock),
            first,
        ) ==> match first.1 {
            Ok(_) => {
                &&& database(first.0) == data@
                &&& trace(first.0) == trace(world) + seq![2int, 3, 4]
            },
            Err(e) => exists|w: W, d: Vec<Record>, encoded: (W, Result<(), PirError>)| #[trigger]
                call_ensures(encode, (w, &d), encoded) && d@ == data@ && (encoded.1 matches Err(p)
                    && e == EthPirError::Pir(p)),
        },
{
    if call_ensures(
        service::build_pir_server::<W, A, E, M, O, N, Clock>,
        (world, config, layout, &data, alloc, encode, mask, offline, stage, &clock),
        result,
    ) {
        match result.1 {
            Ok(timings) => init_laws::law_ready_layer_serves_the_records(
                trace,
                shape,
                database,
                world,
                config,
                layout,
                data@,
                alloc,
                encode,
                mask,
                offline,
                stage,
                clock,
                result.0,
                timings,
            ),
            Err(e) => init_laws::law_making_ready_fails_only_where_a_step_fails(
                trace,
                shape,
                database,
                world,
                config,
                layout,
                data@,
                alloc,
                encode,
                mask,
                offline,
                stage,
                clock,
                result.0,
                e,
            ),
        }
    }
    if call_ensures(
        service::init_serving_database::<W, E, M, O, Clock>,
        (world, &data, encode, mask, offline, &clock),
        first,
    ) {
        init_laws::law_first_serving_serves_the_records(
            trace,
            database,
            world,
            data@,
            encode,
            mask,
            offline,
            clock,
            first.0,
            first.1,
        );
    }
}

/// The time of each step of getting the PIR layer ready is reported for that step.
pub proof fn law_layer_reports_its_times<W, A, E, M, O, N, Clock>(
    now: spec_fn(W) -> nat,
    allocating: nat,
    encoding: nat,
    masking: nat,
    preparing: nat,
    staging: nat,
    world: W,
    config: Config,
    layout: DatabaseLayout,
    data: Vec<Record>,
    alloc: A,
    encode: E,
    mask: M,
    offline: O,
    stage: N,
    clock: Clock,
    left: W,
    timings: ServingTimings,
) where
    A: FnOnce(W, Config, DatabaseLayout) -> (W, Result<(), PirError>),
    E: FnOnce(W, &Vec<Record>) -> (W, Result<(), PirError>),
    M: FnOnce(W) -> W,
    O: FnOnce(W) -> W,
    N: FnOnce(W) -> W,
    Clock: Fn(W) -> (W, Duration),

    requires
        forall|w: W, made: (W, Result<(), PirError>)| #[trigger]
            call_ensures(alloc, (w, config, layout), made) ==> now(made.0) == now(w) + allocating,
        forall|w: W, d: Vec<Record>, encoded: (W, Result<(), PirError>)| #[trigger]
            call_ensures(encode, (w, &d), encoded) ==> now(encoded.0) == now(w) + encoding,
        forall|w: W, masked: W| #[trigger]
            call_ensures(mask, (w,), masked) ==> now(masked) == now(w) + masking,
        forall|w: W, ready: W| #[trigger]
            call_ensures(offline, (w,), ready) ==> now(ready) == now(w) + preparing,
        forall|w: W, ready: W| #[trigger]
            call_ensures(stage, (w,), ready) ==> now(ready) == now(w) + staging,
        forall|w: W, reading: (W, Duration)| #[trigger]
            call_ensures(clock, (w,), reading) ==> reading.1@ == now(w) && now(reading.0)
                == now(w),
        call_ensures(
            service::build_pir_server::<W, A, E, M, O, N, Clock>,
            (world, config, layout, &data, alloc, encode, mask, offline, stage, &clock),
            (left, Ok(timings)),
        ),
    ensures
        timings.server_alloc@ == allocating,
        timings.database_encode@ == encoding,
        timings.query_mask@ == masking,
        timings.offline@ == preparing,
        timings.staging_alloc@ == staging,
{
    init_laws::law_making_ready_times_each_step(
        now,
        allocating,
        encoding,
        masking,
        preparing,
        staging,
        world,
        config,
        layout,
        data@,
        alloc,
        encode,
        mask,
        offline,
        stage,
        clock,
        left,
        timings,
    );
}

/// The time that building the directory takes is reported as that of the keyword index,
/// and the times of the PIR layer as it gave them.
pub proof fn law_start_reports_its_times<C: RecordCodec, W, D, B, X, S, Clock>(
    now: spec_fn(W) -> nat,
    building: nat,
    config: Config,
    layout: DatabaseLayout,
    map: AddressMap<C::Value>,
    world: W,
    build_directory: B,
    index_all: X,
    build_server: S,
    clock: Clock,
    service: Service<C, D, W>,
    timings: InitTimings,
) where
    B: FnOnce(W, Config, DatabaseLayout, &Vec<Address>, u64) -> (W, Result<D, KeywordError>),
    X: FnOnce(&D, &Vec<Address>) -> Vec<usize>,
    S: FnOnce(W, Config, DatabaseLayout, &Vec<Record>) -> (W, Result<ServingTimings, EthPirError>),
    Clock: Fn(W) -> (W, Duration),

    requires
        forall|directory: D, keys: Vec<Address>, slots: Vec<usize>| #[trigger]
            call_ensures(index_all, (&directory, &keys), slots) ==> service::slots_fit(
                slots@,
                keys@.len(),
            ),
        forall|w: W, keys: Vec<Address>, built: (W, Result<D, KeywordError>)| #[trigger]
            call_ensures(build_directory, (w, config, layout, &keys, 0u64), built) ==> now(built.0)
                == now(w) + building,
        forall|w: W, reading: (W, Duration)| #[trigger]
            call_ensures(clock, (w,), reading) ==> reading.1@ == now(w) && now(reading.0)
                == now(w),
        call_ensures(
            EthPirServer::<C>::init_with_timed::<W, D, B, X, S, Clock>,
            (world, config, layout, &map, build_directory, index_all, build_server, clock),
            Ok((service, timings)),
        ),
    ensures
        timings.keyword_index@ == building,
        timings.records_scatter@ == 0,
        exists|w: W, handed: Vec<Record>, steps: ServingTimings|
            #![trigger call_ensures(
                build_server,
                (w, config, layout, &handed),
                (service.serving, Ok::<ServingTimings, EthPirError>(steps)),
            )]
            {
                &&& call_ensures(
                    build_server,
                    (w, config, layout, &handed),
                    (service.serving, Ok::<ServingTimings, EthPirError>(steps)),
                )
                &&& timings.server_alloc == steps.server_alloc
                &&& timings.database_encode == steps.database_encode
                &&& timings.query_mask == steps.query_mask
                &&& timings.offline == steps.offline
                &&& timings.staging_alloc == steps.staging_alloc
            },
{
    map.lemma_len();
    init_laws::law_init_times_each_step::<C, W, D, B, X, S, Clock>(
        now,
        building,
        config,
        layout,
        map.entries(),
        world,
        build_directory,
        index_all,
        build_server,
        clock,
        service.server@,
        service.directory,
        service.serving,
        timings,
    );
    init_laws::law_init_serves_the_records::<C, W, D, B, X, S, Clock>(
        config,
        layout,
        map.entries(),
        world,
        build_directory,
        index_all,
        build_server,
        clock,
        service.server@,
        service.directory,
        service.serving,
        timings,
    );
    let (w, handed, ready) = choose|
        w: W,
        handed: Vec<Record>,
        ready: (W, Result<ServingTimings, EthPirError>),
    |
        #![trigger call_ensures(build_server, (w, config, layout, &handed), ready)]
        call_ensures(build_server, (w, config, layout, &handed), ready) && ready.0
            == service.serving && (ready.1 matches Ok(steps) && timings.server_alloc
            == steps.server_alloc && timings.database_encode == steps.database_encode
            && timings.query_mask == steps.query_mask && timings.offline == steps.offline
            && timings.staging_alloc == steps.staging_alloc);
    let steps = ready.1->Ok_0;
    assert(ready == (service.serving, Ok::<ServingTimings, EthPirError>(steps)));
    assert(call_ensures(
        build_server,
        (w, config, layout, &handed),
        (service.serving, Ok::<ServingTimings, EthPirError>(steps)),
    ));
}

/// The time of each step of a rebuild is reported for that step.
pub proof fn law_rebuilds_report_their_times<C: RecordCodec, W, D, Q, R, X, E, P, I, Clock>(
    now: spec_fn(W) -> nat,
    rebuilding: nat,
    encoding: nat,
    precomputing: nat,
    installing: nat,
    server: &mut EthPirServer<C>,
    world: W,
    map: AddressMap<C::Value>,
    rebuild: R,
    index_all: X,
    encode: E,
    precompute: P,
    install: I,
    clock: Clock,
    left: W,
    refresh: RefreshTimings,
    timings: KeywordRebuildTimings,
    directory: D,
) where
    R: FnOnce(W, &Vec<Address>) -> (W, Result<(u64, D), KeywordError>),
    X: FnOnce(&D, &Vec<Address>) -> Vec<usize>,
    E: FnOnce(W, &Vec<Record>) -> (W, Result<(), PirError>),
    P: FnOnce(W) -> (W, Option<Q>),
    I: FnOnce(W, Q) -> (W, bool),
    Clock: Fn(W) -> (W, Duration),

    requires
        rebuild_laws::takes_time(
            now,
            encoding,
            precomputing,
            installing,
            encode,
            precompute,
            install,
            clock,
        ),
        forall|w: W, keys: Vec<Address>, rebuilt: (W, Result<(u64, D), KeywordError>)| #[trigger]
            call_ensures(rebuild, (w, &keys), rebuilt) ==> now(rebuilt.0) == now(w) + rebuilding,
    ensures
        call_ensures(
            EthPirServer::<C>::try_rebuild_database::<W, Q, E, P, I, Clock>,
            (server, world, encode, precompute, install, clock),
            (left, Ok(Some(refresh))),
        ) ==> refresh.database_encode@ == encoding && refresh.precompute@ == precomputing
            && refresh.install@ == installing,
        call_ensures(
            EthPirServer::<C>::rebuild_keyword_index_from::<W, D, Q, R, X, E, P, I, Clock>,
            (server, world, &map, rebuild, index_all, encode, precompute, install, clock),
            (left, Ok((timings, directory))),
        ) ==> {
            &&& timings.collect_keys@ == 0
            &&& timings.mphf_rebuild@ == rebuilding
            &&& timings.permute@ == 0
            &&& timings.refresh.database_encode@ == encoding
            &&& timings.refresh.precompute@ == precomputing
            &&& timings.refresh.install@ == installing
        },
{
    if call_ensures(
        EthPirServer::<C>::try_rebuild_database::<W, Q, E, P, I, Clock>,
        (server, world, encode, precompute, install, clock),
        (left, Ok(Some(refresh))),
    ) {
        rebuild_laws::law_refresh_times_each_step(
            now,
            encoding,
            precomputing,
            installing,
            old(server)@.records,
            world,
            encode,
            precompute,
            install,
            clock,
            left,
            refresh,
        );
    }
    if call_ensures(
        EthPirServer::<C>::rebuild_keyword_index_from::<W, D, Q, R, X, E, P, I, Clock>,
        (server, world, &map, rebuild, index_all, encode, precompute, install, clock),
        (left, Ok((timings, directory))),
    ) {
        rebuild_laws::law_keyword_rebuild_times_each_step::<C, W, D, Q, R, X, E, P, I, Clock>(
            now,
            rebuilding,
            encoding,
            precomputing,
            installing,
            old(server)@,
            map.entries(),
            world,
            rebuild,
            index_all,
            encode,
            precompute,
            install,
            clock,
            left,
            timings,
            directory,
            final(server)@,
        );
    }
}

/// Compacting a server's own records keeps every address with its value, serves the
/// records as they are laid out anew, and leaves no tail.
pub proof fn law_compaction_serves_the_same_values<C: RecordCodec, W, D, Q, R, X, E, P, I, Clock>(
    staging: spec_fn(W) -> Seq<Record>,
    database: spec_fn(W) -> Seq<Record>,
    made_for: spec_fn(Q) -> Seq<Record>,
    server: &mut EthPirServer<C>,
    world: W,
    rebuild: R,
    index_all: X,
    encode: E,
    precompute: P,
    install: I,
    clock: Clock,
    result: (W, Result<(KeywordRebuildTimings, D), EthPirError>),
) where
    R: FnOnce(W, &Vec<Address>) -> (W, Result<(u64, D), KeywordError>),
    X: FnOnce(&D, &Vec<Address>) -> Vec<usize>,
    E: FnOnce(W, &Vec<Record>) -> (W, Result<(), PirError>),
    P: FnOnce(W) -> (W, Option<Q>),
    I: FnOnce(W, Q) -> (W, bool),
    Clock: Fn(W) -> (W, Duration),

    requires
        rebuild_laws::acts_on_databases(
            staging,
            database,
            made_for,
            encode,
            precompute,
            install,
            clock,
        ),
        forall|w: W, keys: Vec<Address>, rebuilt: (W, Result<(u64, D), KeywordError>)| #[trigger]
            call_ensures(rebuild, (w, &keys), rebuilt) ==> database(rebuilt.0) == database(w),
        forall|directory: D, keys: Vec<Address>, slots: Vec<usize>| #[trigger]
            call_ensures(index_all, (&directory, &keys), slots) ==> records::one_slot_each(
                slots@,
                keys@.len(),
            ),
        forall|value: C::Value| C::decoded(#[trigger] C::encoded(value)) == value,
        call_ensures(
            EthPirServer::<C>::rebuild_keyword_index::<W, D, Q, R, X, E, P, I, Clock>,
            (server, world, rebuild, index_all, encode, precompute, install, clock),
            result,
        ),
    ensures
        match result.1 {
            Ok(_) => {
                &&& database(result.0) == final(server)@.records
                &&& final(server)@.served == final(server)@.records
                &&& final(server)@.pending == 0
                &&& final(server)@.directory.delta_len == 0
                &&& records::records_map::<C>(final(server)@.records) == records::records_map::<C>(
                    old(server)@.records,
                )
            },
            Err(_) => {
                &&& final(server)@ == old(server)@
                &&& database(result.0) == database(world)
            },
        },
{
    let map = choose|map: AddressMap<C::Value>| #[trigger]
        map.wf() && map@ == records::records_map::<C>(old(server)@.records)
            && crate::server::rebuild::keyword_rebuild_ends::<C, W, D, Q, R, X, E, P, I, Clock>(
            old(server)@,
            map.entries(),
            world,
            rebuild,
            index_all,
            encode,
            precompute,
            install,
            clock,
            result,
            final(server)@,
        );
    let entries = map.entries();
    map.lemma_distinct();
    assert(map@ == address_map::entries_as_map(entries));
    match result.1 {
        Ok((timings, directory)) => {
            assert(entries.len() <= usize::MAX) by {
                map.lemma_len();
            }
            rebuild_laws::law_keyword_rebuild_serves_the_records::<C, W, D, Q, R, X, E, P, I, Clock>(
                staging,
                database,
                made_for,
                old(server)@,
                entries,
                world,
                rebuild,
                index_all,
                encode,
                precompute,
                install,
                clock,
                result.0,
                timings,
                directory,
                final(server)@,
            );
            laws::law_compaction_keeps_every_value::<C, W, D, Q, R, X, E, P, I, Clock>(
                old(server)@,
                entries,
                world,
                rebuild,
                index_all,
                encode,
                precompute,
                install,
                clock,
                result.0,
                timings,
                directory,
                final(server)@,
            );
        },
        Err(e) => {
            rebuild_laws::law_failed_keyword_rebuild_keeps_serving::<C, W, D, Q, R, X, E, P, I, Clock>(
                staging,
                database,
                made_for,
                old(server)@,
                entries,
                world,
                rebuild,
                index_all,
                encode,
                precompute,
                install,
                clock,
                result.0,
                e,
                final(server)@,
            );
        },
    }
}

/// The directory of a checkpoint is taken as it was read where it has a base slot for
/// each key, refused as bad data where it has not, and a failure to read it comes
/// through.
pub proof fn law_checkpoint_must_fit_its_directory<D>(
    found: Result<(D, DirectoryState), WireError>,
    keys: &[Address],
    result: Result<(D, DirectoryState), EthPirError>,
)
    requires
        call_ensures(restore::check_checkpoint_directory::<D>, (found, keys), result),
    ensures
        match found {
            Ok((directory, state)) => if state.mphf_len == keys@.len() {
                result == Ok::<_, EthPirError>((directory, state))
            } else {
                result matches Err(EthPirError::Io { kind, message: _ }) && kind
                    == ErrorKind::InvalidData
            },
            Err(w) => result matches Err(e) && client_laws::says(e, w),
        },
{
}

/// The keys of a checkpoint are the addresses in the slots, and a slot whose address is
/// still in the map gets that address's record back; every other slot stays as it is and
/// counts as vacant, and each slot that holds its address afterwards counts as placed.
pub proof fn law_base_slots_come_back<C: RecordCodec>(
    held: &[Record],
    found: Vec<Address>,
    keys: &[Address],
    map: AddressMap<C::Value>,
    slots: &mut Vec<Record>,
    report: &mut RestoreReport,
)
    ensures
        call_ensures(restore::checkpoint_keys, (held,), found) ==> found@.len() == held@.len()
            && forall|s: int|
            0 <= s < found@.len() ==> (#[trigger] found@[s])@ == held@[s]@.take(20),
        call_ensures(
            restore::place_checkpoint_slots::<C>,
            (keys, &map, slots, report),
            (),
        ) && old(report).vacant + keys@.len() <= usize::MAX && old(report).placed + keys@.len()
            <= usize::MAX ==> {
            &&& final(slots)@.len() == old(slots)@.len()
            &&& forall|s: int|
                0 <= s < old(slots)@.len() ==> #[trigger] final(slots)@[s] == if s < keys@.len()
                    && map@.contains_key(keys@[s]) && keys@[s] != record::vacant_address() {
                    record::record_for::<C>(keys@[s], map@[keys@[s]])
                } else {
                    old(slots)@[s]
                }
            &&& final(report).appended == old(report).appended
            &&& final(report).vacant == old(report).vacant + restore::count(
                keys@.len(),
                |s: int| !(map@.contains_key(keys@[s]) && keys@[s] != record::vacant_address()),
            )
            &&& final(report).placed == old(report).placed + restore::count(
                keys@.len(),
                |s: int|
                    keys@[s] != record::vacant_address() && record::address_in(final(slots)@[s])
                        == keys@[s],
            )
        },
{
    restore::lemma_count_same(
        keys@.len(),
        |s: int| restore::slot_placed(final(slots)@, keys@, s),
        |s: int|
            keys@[s] != record::vacant_address() && record::address_in(final(slots)@[s])
                == keys@[s],
    );
    restore::lemma_count_split(
        keys@.len(),
        |s: int| restore::slot_placed(final(slots)@, keys@, s),
        |s: int| !restore::slot_placed(final(slots)@, keys@, s),
    );
    assert forall|s: int| 0 <= s < held@.len() implies record::address_in(#[trigger] held@[s])@
        == held@[s]@.take(20) by {
        record::lemma_record_parts(held@[s]);
    }
    restore::lemma_count_same(
        keys@.len(),
        |s: int| !restore::comes_back(keys@[s], map@),
        |s: int| !(map@.contains_key(keys@[s]) && keys@[s] != record::vacant_address()),
    );
    restore::lemma_count_split(
        keys@.len(),
        |s: int| !restore::comes_back(keys@[s], map@),
        |s: int| restore::comes_back(keys@[s], map@),
    );
}

/// A slot of the tail gets the record of the last address that the directory names it
/// for; every other slot stays as it is; and each address with a slot in the tail counts
/// as placed.
pub proof fn law_tail_slots_come_back<C: RecordCodec, D, X: Fn(&D, &Address) -> usize>(
    names: spec_fn(Address) -> usize,
    directory: D,
    mphf_len: usize,
    map: AddressMap<C::Value>,
    slots: &mut Vec<Record>,
    report: &mut RestoreReport,
    index: X,
    s: int,
)
    requires
        0 <= s < old(slots)@.len(),
        old(report).placed + map.entries().len() <= usize::MAX,
        forall|addr: Address, slot: usize| #[trigger]
            call_ensures(index, (&directory, &addr), slot) ==> slot == names(addr),
        call_ensures(
            restore::place_delta_slots::<C, D, X>,
            (&directory, mphf_len, &map, slots, report, &index),
            (),
        ),
    ensures
        final(slots)@.len() == old(slots)@.len(),
        s < mphf_len || (forall|i: int|
            0 <= i < map.entries().len() ==> names((#[trigger] map.entries()[i]).0) != s)
            ==> final(slots)@[s] == old(slots)@[s],
        forall|i: int|
            0 <= i < map.entries().len() && names((#[trigger] map.entries()[i]).0) == s && mphf_len
                <= s && (forall|j: int|
                i < j < map.entries().len() ==> names((#[trigger] map.entries()[j]).0) != s)
                ==> final(slots)@[s] == record::record_for::<C>(
                map.entries()[i].0,
                map.entries()[i].1,
            ),
        final(report).appended == old(report).appended,
        final(report).vacant == old(report).vacant,
        final(report).placed == old(report).placed + restore::count(
            map.entries().len(),
            |i: int| mphf_len <= names(map.entries()[i].0) < old(slots)@.len(),
        ),
{
    let entries = map.entries();
    let before = old(slots)@;
    let named = choose|named: Seq<usize>|
        #![trigger restore::indexed_by(index, directory, entries, named)]
        {
            let placements = restore::placements_between::<C>(
                entries,
                named,
                mphf_len as nat,
                before.len(),
            );
            &&& restore::indexed_by(index, directory, entries, named)
            &&& final(slots)@ == records::scattered(before, placements)
            &&& *final(report) == (RestoreReport {
                placed: (old(report).placed + placements.len()) as usize,
                ..*old(report)
            })
        };
    assert forall|i: int| 0 <= i < entries.len() implies #[trigger] named[i] == names(
        entries[i].0,
    ) by {
        assert(call_ensures(index, (&directory, &entries[i].0), named[i]));
    }
    restore_laws::law_tail_slots_hold_their_addresses::<C>(
        before,
        entries,
        named,
        mphf_len as nat,
        s,
    );
    restore::lemma_count_same(
        entries.len(),
        |i: int| (mphf_len as nat) <= named[i] < before.len(),
        |i: int| mphf_len <= names(entries[i].0) < before.len(),
    );
    restore::lemma_count_split(
        entries.len(),
        |i: int| mphf_len <= names(entries[i].0) < before.len(),
        |i: int| !(mphf_len <= names(entries[i].0) < before.len()),
    );
    assert forall|i: int|
        0 <= i < entries.len() && names((#[trigger] entries[i]).0) == s && mphf_len <= s && (forall|
            j: int,
        |
            i < j < entries.len() ==> names((#[trigger] entries[j]).0) != s) implies final(slots)@[s]
        == record::record_for::<C>(entries[i].0, entries[i].1) by {
        assert(named[i] == s);
        assert forall|j: int| i < j < entries.len() implies #[trigger] named[j] != s by {
            assert(names(entries[j].0) != s);
        }
    }
    if forall|i: int| 0 <= i < entries.len() ==> names((#[trigger] entries[i]).0) != s {
        assert forall|i: int| 0 <= i < named.len() implies #[trigger] named[i] != s by {
            assert(names(entries[i].0) != s);
        }
    }
}

/// Appending keeps every slot that was there, and after it the directory and the
/// records are in step; it fails only where the directory refused an address.
pub proof fn law_appending_keeps_what_is_there<C: RecordCodec, D, X, P>(
    names: spec_fn(D, Address) -> int,
    size: spec_fn(D) -> int,
    directory: D,
    map: AddressMap<C::Value>,
    slots: &mut Vec<Record>,
    report: &mut RestoreReport,
    index: X,
    push: P,
    result: (D, Result<(), EthPirError>),
) where
    X: Fn(&D, &Address) -> usize,
    P: Fn(D, &Address) -> (D, Result<usize, KeywordError>),

    requires
        map.wf(),
        old(report).appended + map.entries().len() <= usize::MAX,
        restore_laws::directory_obeys(index, push, names, size),
        forall|d: D, addr: Address, pushed: (D, Result<usize, KeywordError>)| #[trigger]
            call_ensures(push, (d, &addr), pushed) && pushed.1 is Err ==> size(pushed.0) == size(d),
        size(directory) == old(slots)@.len(),
        call_ensures(
            restore::append_new_slots::<C, D, X, P>,
            (directory, &map, slots, report, &index, &push),
            result,
        ),
    ensures
        size(result.0) == final(slots)@.len(),
        forall|s: int|
            0 <= s < old(slots)@.len() ==> #[trigger] final(slots)@[s] == old(slots)@[s],
        final(report).appended - old(report).appended == final(slots)@.len() - old(slots)@.len(),
        final(report).placed == old(report).placed,
        final(report).vacant == old(report).vacant,
        result.1 matches Err(e) ==> exists|
            d: D,
            addr: Address,
            pushed: (D, Result<usize, KeywordError>),
        | #[trigger]
            call_ensures(push, (d, &addr), pushed) && (pushed.1 matches Err(k) && e
                == EthPirError::Keyword(k)),
{
    map.lemma_distinct();
    restore_laws::law_append_keeps_directory_and_records_aligned::<C, D, X, P>(
        index,
        push,
        names,
        size,
        map.entries(),
        (directory, old(slots)@),
        (result.0, final(slots)@),
        result.1,
    );
}

} // verus!
