//! Building a server, updating it, and asking what it holds.

use vstd::prelude::*;

use std::marker::PhantomData;

use crate::address_map::AddressMap;
use crate::error::{EthPirError, KeywordError, PirError};
use crate::record;
use crate::record::{belongs_to, record_of, Address, Record, RecordCodec, RECORD_BYTES};
use crate::server::keyword::DirectoryState;
use crate::server::records;
use crate::server::records::{collect_keys, scatter_map_records};
use crate::server::report;
use crate::server::report::{
    DatabaseTimings, Duration, InitTimings, MemoryReport, ServingMemory, ServingTimings,
};
use crate::server::EthPirServer;
use crate::server::ServerView;
use crate::shape;
use crate::shape::{default_shape, Config, DatabaseLayout};

verus! {

/// What the keyword layer's answer to `push` makes of a server in which `addr`
/// was not found in slot `slot`, and of the update that pushed it: the address
/// gets a slot at the end; or, where the directory holds it already, its slot is
/// written; or nothing changes and the failure is passed on.
pub open spec fn inserted(
    before: ServerView,
    slot: usize,
    addr: Address,
    record: Record,
    pushed: Result<usize, KeywordError>,
) -> (ServerView, Result<(), EthPirError>) {
    match pushed {
        Ok(_) => (before.appended(record), Ok(())),
        Err(e) => if e.duplicate == Some(addr) && slot < before.records.len() {
            (before.written(slot as int, record), Ok(()))
        } else {
            (before, Err(EthPirError::Keyword(e)))
        },
    }
}

/// A server after an update that led it to `server` and ended with `result`: an
/// update that was taken is pending.
pub open spec fn settled(server: ServerView, result: Result<(), EthPirError>) -> ServerView {
    if result is Ok {
        server.counted()
    } else {
        server
    }
}

/// Bytes that one entry of a directory's tail takes in memory: the address, and
/// what the directory keeps beside it.
pub const TAIL_ENTRY_BYTES: usize = 20 + 24;

/// Whether `slots` names one of `n` slots for each of `n` addresses.
pub open spec fn slots_fit(slots: Seq<usize>, n: nat) -> bool {
    slots.len() == n && forall|i: int| 0 <= i < n ==> #[trigger] slots[i] < n
}

/// The records of a map laid out by `slots`.
pub open spec fn laid_out<C: RecordCodec>(
    entries: Seq<(Address, C::Value)>,
    slots: Seq<usize>,
) -> Seq<Record> {
    records::scattered(
        records::vacant_records(slots.len()),
        records::placements_for::<C>(entries, slots),
    )
}

/// The state of a server that was just built from `n` addresses, whose records are
/// `records`: generation 0, nothing in the tail, nothing pending.
pub open spec fn fresh(n: nat, records: Seq<Record>) -> ServerView {
    ServerView {
        directory: DirectoryState { version: 0, mphf_len: n as usize, delta_len: 0 },
        records,
        served: records,
        pending: 0,
    }
}

/// The steps of building a server that are the PIR layer's.
pub open spec fn serving_steps(timings: InitTimings) -> ServingTimings {
    ServingTimings {
        server_alloc: timings.server_alloc,
        database_encode: timings.database_encode,
        query_mask: timings.query_mask,
        offline: timings.offline,
        staging_alloc: timings.staging_alloc,
    }
}

/// A server with what stands beside it: the keyword directory `D` whose state it
/// keeps, and the outside world `W` with the serving side of the PIR layer in it.
pub struct Service<C: RecordCodec, D, W> {
    pub server: EthPirServer<C>,
    pub directory: D,
    pub serving: W,
}

/// Whether a server can be built from `entries` with these calls: each may be made
/// where it is due, and a directory built over the addresses names fitting slots
/// for them.
pub open spec fn init_callable<C: RecordCodec, W, D, B, X, S, Clock>(
    config: Config,
    layout: DatabaseLayout,
    entries: Seq<(Address, C::Value)>,
    build_directory: B,
    index_all: X,
    build_server: S,
    clock: Clock,
) -> bool where
    B: FnOnce(W, Config, DatabaseLayout, &Vec<Address>, u64) -> (W, Result<D, KeywordError>),
    X: FnOnce(&D, &Vec<Address>) -> Vec<usize>,
    S: FnOnce(W, Config, DatabaseLayout, &Vec<Record>) -> (W, Result<ServingTimings, EthPirError>),
    Clock: Fn(W) -> (W, Duration),
 {
    &&& forall|world: W, keys: Vec<Address>|
        keys@ == records::addresses_of(entries) ==> #[trigger] call_requires(
            build_directory,
            (world, config, layout, &keys, 0u64),
        )
    &&& forall|world: W, keys: Vec<Address>, built: (W, Result<D, KeywordError>)|
        keys@ == records::addresses_of(entries) && #[trigger] call_ensures(
            build_directory,
            (world, config, layout, &keys, 0u64),
            built,
        ) ==> (built.1 matches Ok(directory) ==> indexable(directory, keys, index_all))
    &&& forall|world: W, records: Vec<Record>|
        records@.len() == entries.len() ==> #[trigger] call_requires(
            build_server,
            (world, config, layout, &records),
        )
    &&& forall|world: W| #[trigger] call_requires(clock, (world,))
}

/// Whether `directory` can be asked for the slots of `keys`, and names fitting
/// ones.
pub open spec fn indexable<D, X>(directory: D, keys: Vec<Address>, index_all: X) -> bool where
    X: FnOnce(&D, &Vec<Address>) -> Vec<usize>,
 {
    &&& call_requires(index_all, (&directory, &keys))
    &&& forall|slots: Vec<usize>| #[trigger]
        call_ensures(index_all, (&directory, &keys), slots) ==> slots_fit(slots@, keys@.len())
}

/// What building a server from `entries` may give: the state of the server, its
/// directory, the outside world as it is then, and how long each step took; or the
/// failure.
///
/// A directory of generation 0 is built over exactly the addresses of `entries`,
/// it is asked for exactly their slots, and the PIR layer is handed exactly the
/// records that those slots lay out. The clock is read before the directory is
/// built, after it, and before the PIR layer is handed the records. The first
/// failure decides.
pub open spec fn init_gives<C: RecordCodec, W, D, B, X, S, Clock>(
    config: Config,
    layout: DatabaseLayout,
    entries: Seq<(Address, C::Value)>,
    world: W,
    build_directory: B,
    index_all: X,
    build_server: S,
    clock: Clock,
    outcome: Result<(ServerView, D, W, InitTimings), EthPirError>,
) -> bool where
    B: FnOnce(W, Config, DatabaseLayout, &Vec<Address>, u64) -> (W, Result<D, KeywordError>),
    X: FnOnce(&D, &Vec<Address>) -> Vec<usize>,
    S: FnOnce(W, Config, DatabaseLayout, &Vec<Record>) -> (W, Result<ServingTimings, EthPirError>),
    Clock: Fn(W) -> (W, Duration),
 {
    exists|start: (W, Duration), keys: Vec<Address>, built: (W, Result<D, KeywordError>)|
        #![trigger call_ensures(clock, (world,), start), call_ensures(
            build_directory,
            (start.0, config, layout, &keys, 0u64),
            built,
        )]
        {
            &&& call_ensures(clock, (world,), start)
            &&& keys@ == records::addresses_of(entries)
            &&& call_ensures(build_directory, (start.0, config, layout, &keys, 0u64), built)
            &&& match built.1 {
                Err(e) => outcome == Err::<(ServerView, D, W, InitTimings), _>(
                    EthPirError::Keyword(e),
                ),
                Ok(directory) => exists|middle: (W, Duration), slots: Vec<usize>|
                    #![trigger call_ensures(clock, (built.0,), middle), call_ensures(
                        index_all,
                        (&directory, &keys),
                        slots,
                    )]
                    {
                        &&& call_ensures(clock, (built.0,), middle)
                        &&& call_ensures(index_all, (&directory, &keys), slots)
                        &&& serve_gives::<C, W, D, S, Clock>(
                            config,
                            layout,
                            entries,
                            start.1,
                            middle,
                            directory,
                            slots@,
                            build_server,
                            clock,
                            outcome,
                        )
                    },
            }
        }
}

/// What building a server from `entries` may give once the directory named their
/// slots: `start` is when its building started, and `middle` when it ended.
pub open spec fn serve_gives<C: RecordCodec, W, D, S, Clock>(
    config: Config,
    layout: DatabaseLayout,
    entries: Seq<(Address, C::Value)>,
    start: Duration,
    middle: (W, Duration),
    directory: D,
    slots: Seq<usize>,
    build_server: S,
    clock: Clock,
    outcome: Result<(ServerView, D, W, InitTimings), EthPirError>,
) -> bool where
    S: FnOnce(W, Config, DatabaseLayout, &Vec<Record>) -> (W, Result<ServingTimings, EthPirError>),
    Clock: Fn(W) -> (W, Duration),
 {
    exists|end: (W, Duration), records: Vec<Record>, ready: (W, Result<ServingTimings, EthPirError>)|
        #![trigger call_ensures(clock, (middle.0,), end), call_ensures(
            build_server,
            (end.0, config, layout, &records),
            ready,
        )]
        {
            &&& call_ensures(clock, (middle.0,), end)
            &&& records@ == laid_out::<C>(entries, slots)
            &&& call_ensures(build_server, (end.0, config, layout, &records), ready)
            &&& match ready.1 {
                Err(e) => outcome == Err::<(ServerView, D, W, InitTimings), _>(e),
                Ok(steps) => {
                    &&& outcome matches Ok((server, d, world, timings))
                    &&& server == fresh(entries.len(), records@)
                    &&& d == directory
                    &&& world == ready.0
                    &&& report::lasted(timings.keyword_index, start, middle.1)
                    &&& report::lasted(timings.records_scatter, middle.1, end.1)
                    &&& serving_steps(timings) == steps
                },
            }
        }
}

/// What serving `records` from a PIR server for the first time may give: the
/// server as it is then, and how long each step took, or the failure.
///
/// The records are encoded first; then the query mask is generated and the offline
/// phase run, in that order, and neither where encoding failed.
pub open spec fn first_served<W, E, M, O, Clock>(
    server: W,
    records: Seq<Record>,
    encode: E,
    mask: M,
    offline: O,
    clock: Clock,
    after: W,
    outcome: Result<DatabaseTimings, EthPirError>,
) -> bool where
    E: FnOnce(W, &Vec<Record>) -> (W, Result<(), PirError>),
    M: FnOnce(W) -> W,
    O: FnOnce(W) -> W,
    Clock: Fn(W) -> (W, Duration),
 {
    exists|start: (W, Duration), data: Vec<Record>, encoded: (W, Result<(), PirError>)|
        #![trigger call_ensures(clock, (server,), start), call_ensures(
            encode,
            (start.0, &data),
            encoded,
        )]
        {
            &&& call_ensures(clock, (server,), start)
            &&& data@ == records
            &&& call_ensures(encode, (start.0, &data), encoded)
            &&& match encoded.1 {
                Err(e) => after == encoded.0 && outcome == Err::<DatabaseTimings, _>(
                    EthPirError::Pir(e),
                ),
                Ok(()) => made_ready(
                    start.1,
                    encoded.0,
                    mask,
                    offline,
                    clock,
                    after,
                    outcome,
                ),
            }
        }
}

/// The part of [`first_served`] that follows the encoding, which started at
/// `start`.
pub open spec fn made_ready<W, M, O, Clock>(
    start: Duration,
    encoded: W,
    mask: M,
    offline: O,
    clock: Clock,
    after: W,
    outcome: Result<DatabaseTimings, EthPirError>,
) -> bool where M: FnOnce(W) -> W, O: FnOnce(W) -> W, Clock: Fn(W) -> (W, Duration) {
    exists|at: (W, Duration), masked: W, later: (W, Duration), ready: W, end: (W, Duration)|
        #![trigger call_ensures(clock, (encoded,), at), call_ensures(
            mask,
            (at.0,),
            masked,
        ), call_ensures(clock, (masked,), later), call_ensures(
            offline,
            (later.0,),
            ready,
        ), call_ensures(clock, (ready,), end)]
        {
            &&& call_ensures(clock, (encoded,), at)
            &&& call_ensures(mask, (at.0,), masked)
            &&& call_ensures(clock, (masked,), later)
            &&& call_ensures(offline, (later.0,), ready)
            &&& call_ensures(clock, (ready,), end)
            &&& after == end.0
            &&& outcome matches Ok(timings)
            &&& report::lasted(timings.database_encode, start, at.1)
            &&& report::lasted(timings.query_mask, at.1, later.1)
            &&& report::lasted(timings.offline, later.1, end.1)
        }
}

/// Serves `records` from a PIR server for the first time: encodes them, generates
/// the query mask and runs the offline phase. `server` is the outside world with
/// that server in it.
pub fn init_serving_database<W, E, M, O, Clock>(
    server: W,
    records: &Vec<Record>,
    encode: E,
    mask: M,
    offline: O,
    clock: &Clock,
) -> (result: (W, Result<DatabaseTimings, EthPirError>)) where
    E: FnOnce(W, &Vec<Record>) -> (W, Result<(), PirError>),
    M: FnOnce(W) -> W,
    O: FnOnce(W) -> W,
    Clock: Fn(W) -> (W, Duration),

    requires
        forall|world: W| #[trigger] call_requires(encode, (world, records)),
        forall|world: W| #[trigger] call_requires(mask, (world,)),
        forall|world: W| #[trigger] call_requires(offline, (world,)),
        forall|world: W| #[trigger] call_requires(*clock, (world,)),
    ensures
        first_served(server, records@, encode, mask, offline, *clock, result.0, result.1),
{
    let (world, start) = clock(server);
    let (world, encoded) = encode(world, records);
    match encoded {
        Ok(()) => {},
        Err(e) => {
            return (world, Err(EthPirError::from(e)));
        },
    }
    let ghost was_encoded = world;
    let (world, at) = clock(world);
    let world = mask(world);
    let (world, later) = clock(world);
    let world = offline(world);
    let (world, end) = clock(world);
    let timings = DatabaseTimings {
        database_encode: at.since(start),
        query_mask: later.since(at),
        offline: end.since(later),
    };
    assert(made_ready(start, was_encoded, mask, offline, *clock, world, Ok(timings)));
    (world, Ok(timings))
}

/// What getting the PIR layer ready to serve `records` may give: the outside world
/// as it is then, and how long each step took, or the failure.
///
/// A server of the given shape is set up; the records are served from it for the
/// first time; then a staging database is set up beside it. The first failure
/// decides, and no later step is taken.
pub open spec fn pir_server_gives<W, A, E, M, O, N, Clock>(
    world: W,
    config: Config,
    layout: DatabaseLayout,
    records: Seq<Record>,
    alloc: A,
    encode: E,
    mask: M,
    offline: O,
    stage: N,
    clock: Clock,
    after: W,
    outcome: Result<ServingTimings, EthPirError>,
) -> bool where
    A: FnOnce(W, Config, DatabaseLayout) -> (W, Result<(), PirError>),
    E: FnOnce(W, &Vec<Record>) -> (W, Result<(), PirError>),
    M: FnOnce(W) -> W,
    O: FnOnce(W) -> W,
    N: FnOnce(W) -> W,
    Clock: Fn(W) -> (W, Duration),
 {
    exists|start: (W, Duration), made: (W, Result<(), PirError>)|
        #![trigger call_ensures(clock, (world,), start), call_ensures(
            alloc,
            (start.0, config, layout),
            made,
        )]
        {
            &&& call_ensures(clock, (world,), start)
            &&& call_ensures(alloc, (start.0, config, layout), made)
            &&& match made.1 {
                Err(e) => after == made.0 && outcome == Err::<ServingTimings, _>(
                    EthPirError::Pir(e),
                ),
                Ok(()) => exists|
                    at: (W, Duration),
                    served: W,
                    steps: Result<DatabaseTimings, EthPirError>,
                |
                    #![trigger call_ensures(clock, (made.0,), at), first_served(
                        at.0,
                        records,
                        encode,
                        mask,
                        offline,
                        clock,
                        served,
                        steps,
                    )]
                    {
                        &&& call_ensures(clock, (made.0,), at)
                        &&& first_served(
                            at.0,
                            records,
                            encode,
                            mask,
                            offline,
                            clock,
                            served,
                            steps,
                        )
                        &&& match steps {
                            Err(e) => after == served && outcome == Err::<ServingTimings, _>(e),
                            Ok(steps) => staged(
                                start.1,
                                at.1,
                                served,
                                steps,
                                stage,
                                clock,
                                after,
                                outcome,
                            ),
                        }
                    },
            }
        }
}

/// The part of [`pir_server_gives`] that sets the staging database up.
pub open spec fn staged<W, N, Clock>(
    start: Duration,
    at: Duration,
    served: W,
    steps: DatabaseTimings,
    stage: N,
    clock: Clock,
    after: W,
    outcome: Result<ServingTimings, EthPirError>,
) -> bool where N: FnOnce(W) -> W, Clock: Fn(W) -> (W, Duration) {
    exists|later: (W, Duration), ready: W, end: (W, Duration)|
        #![trigger call_ensures(clock, (served,), later), call_ensures(
            stage,
            (later.0,),
            ready,
        ), call_ensures(clock, (ready,), end)]
        {
            &&& call_ensures(clock, (served,), later)
            &&& call_ensures(stage, (later.0,), ready)
            &&& call_ensures(clock, (ready,), end)
            &&& after == end.0
            &&& outcome matches Ok(timings)
            &&& report::lasted(timings.server_alloc, start, at)
            &&& timings.database_encode == steps.database_encode
            &&& timings.query_mask == steps.query_mask
            &&& timings.offline == steps.offline
            &&& report::lasted(timings.staging_alloc, later.1, end.1)
        }
}

/// Gets the PIR layer ready to serve `records`.
///
/// `alloc` sets up a PIR server in the outside world; `encode`, `mask` and
/// `offline` are the steps of [`init_serving_database`]; `stage` sets up the
/// staging database.
pub fn build_pir_server<W, A, E, M, O, N, Clock>(
    world: W,
    config: Config,
    layout: DatabaseLayout,
    records: &Vec<Record>,
    alloc: A,
    encode: E,
    mask: M,
    offline: O,
    stage: N,
    clock: &Clock,
) -> (result: (W, Result<ServingTimings, EthPirError>)) where
    A: FnOnce(W, Config, DatabaseLayout) -> (W, Result<(), PirError>),
    E: FnOnce(W, &Vec<Record>) -> (W, Result<(), PirError>),
    M: FnOnce(W) -> W,
    O: FnOnce(W) -> W,
    N: FnOnce(W) -> W,
    Clock: Fn(W) -> (W, Duration),

    requires
        forall|world: W| #[trigger] call_requires(alloc, (world, config, layout)),
        forall|world: W| #[trigger] call_requires(encode, (world, records)),
        forall|world: W| #[trigger] call_requires(mask, (world,)),
        forall|world: W| #[trigger] call_requires(offline, (world,)),
        forall|world: W| #[trigger] call_requires(stage, (world,)),
        forall|world: W| #[trigger] call_requires(*clock, (world,)),
    ensures
        pir_server_gives(
            world,
            config,
            layout,
            records@,
            alloc,
            encode,
            mask,
            offline,
            stage,
            *clock,
            result.0,
            result.1,
        ),
{
    let (world, start) = clock(world);
    let (world, made) = alloc(world, config, layout);
    match made {
        Ok(()) => {},
        Err(e) => {
            return (world, Err(EthPirError::from(e)));
        },
    }
    let (world, at) = clock(world);
    let (world, steps) = init_serving_database(world, records, encode, mask, offline, clock);
    let steps = match steps {
        Ok(steps) => steps,
        Err(e) => {
            return (world, Err(e));
        },
    };
    let ghost served = world;
    let (world, later) = clock(world);
    let world = stage(world);
    let (world, end) = clock(world);
    let timings = ServingTimings {
        server_alloc: at.since(start),
        database_encode: steps.database_encode,
        query_mask: steps.query_mask,
        offline: steps.offline,
        staging_alloc: end.since(later),
    };
    assert(staged(start, at, served, steps, stage, *clock, world, Ok(timings)));
    (world, Ok(timings))
}

impl<C: RecordCodec> EthPirServer<C> {
    /// Builds a server from an address -> value map, at the fixed deployment shape.
    pub fn init<W, D, B, X, S, Clock>(
        world: W,
        map: &AddressMap<C::Value>,
        build_directory: B,
        index_all: X,
        build_server: S,
        clock: Clock,
    ) -> (result: Result<Service<C, D, W>, EthPirError>) where
        B: FnOnce(W, Config, DatabaseLayout, &Vec<Address>, u64) -> (W, Result<D, KeywordError>),
        X: FnOnce(&D, &Vec<Address>) -> Vec<usize>,
        S: FnOnce(W, Config, DatabaseLayout, &Vec<Record>) -> (
            W,
            Result<ServingTimings, EthPirError>,
        ),
        Clock: Fn(W) -> (W, Duration),

        requires
            map.wf(),
            init_callable::<C, W, D, B, X, S, Clock>(
                shape::default_config(),
                shape::default_layout(),
                map.entries(),
                build_directory,
                index_all,
                build_server,
                clock,
            ),
        ensures
            result matches Err(e) ==> init_gives::<C, W, D, B, X, S, Clock>(
                shape::default_config(),
                shape::default_layout(),
                map.entries(),
                world,
                build_directory,
                index_all,
                build_server,
                clock,
                Err(e),
            ),
            result matches Ok(service) ==> service.server@.wf() && exists|timings: InitTimings|
                #[trigger]
                init_gives::<C, W, D, B, X, S, Clock>(
                    shape::default_config(),
                    shape::default_layout(),
                    map.entries(),
                    world,
                    build_directory,
                    index_all,
                    build_server,
                    clock,
                    Ok((service.server@, service.directory, service.serving, timings)),
                ),
    {
        let (config, layout) = default_shape();
        Self::init_with(
            world,
            config,
            layout,
            map,
            build_directory,
            index_all,
            build_server,
            clock,
        )
    }

    /// Builds a server from an address -> value map, at a shape of the caller's
    /// choice.
    pub fn init_with<W, D, B, X, S, Clock>(
        world: W,
        config: Config,
        layout: DatabaseLayout,
        map: &AddressMap<C::Value>,
        build_directory: B,
        index_all: X,
        build_server: S,
        clock: Clock,
    ) -> (result: Result<Service<C, D, W>, EthPirError>) where
        B: FnOnce(W, Config, DatabaseLayout, &Vec<Address>, u64) -> (W, Result<D, KeywordError>),
        X: FnOnce(&D, &Vec<Address>) -> Vec<usize>,
        S: FnOnce(W, Config, DatabaseLayout, &Vec<Record>) -> (
            W,
            Result<ServingTimings, EthPirError>,
        ),
        Clock: Fn(W) -> (W, Duration),

        requires
            map.wf(),
            init_callable::<C, W, D, B, X, S, Clock>(
                config,
                layout,
                map.entries(),
                build_directory,
                index_all,
                build_server,
                clock,
            ),
        ensures
            result matches Err(e) ==> init_gives::<C, W, D, B, X, S, Clock>(
                config,
                layout,
                map.entries(),
                world,
                build_directory,
                index_all,
                build_server,
                clock,
                Err(e),
            ),
            result matches Ok(service) ==> service.server@.wf() && exists|timings: InitTimings|
                #[trigger]
                init_gives::<C, W, D, B, X, S, Clock>(
                    config,
                    layout,
                    map.entries(),
                    world,
                    build_directory,
                    index_all,
                    build_server,
                    clock,
                    Ok((service.server@, service.directory, service.serving, timings)),
                ),
    {
        match Self::init_with_timed(
            world,
            config,
            layout,
            map,
            build_directory,
            index_all,
            build_server,
            clock,
        ) {
            Ok((service, _)) => Ok(service),
            Err(e) => Err(e),
        }
    }

    /// Builds a server from an address -> value map, with a per-step timing
    /// breakdown.
    ///
    /// `world` is the outside world that the calls act on. `build_directory` derives
    /// a directory of the given generation over the given addresses, `index_all`
    /// names the slot of each, `build_server` gets the PIR layer ready to serve the
    /// given records, and `clock` tells the time.
    pub fn init_with_timed<W, D, B, X, S, Clock>(
        world: W,
        config: Config,
        layout: DatabaseLayout,
        map: &AddressMap<C::Value>,
        build_directory: B,
        index_all: X,
        build_server: S,
        clock: Clock,
    ) -> (result: Result<(Service<C, D, W>, InitTimings), EthPirError>) where
        B: FnOnce(W, Config, DatabaseLayout, &Vec<Address>, u64) -> (W, Result<D, KeywordError>),
        X: FnOnce(&D, &Vec<Address>) -> Vec<usize>,
        S: FnOnce(W, Config, DatabaseLayout, &Vec<Record>) -> (
            W,
            Result<ServingTimings, EthPirError>,
        ),
        Clock: Fn(W) -> (W, Duration),

        requires
            map.wf(),
            init_callable::<C, W, D, B, X, S, Clock>(
                config,
                layout,
                map.entries(),
                build_directory,
                index_all,
                build_server,
                clock,
            ),
        ensures
            result matches Err(e) ==> init_gives::<C, W, D, B, X, S, Clock>(
                config,
                layout,
                map.entries(),
                world,
                build_directory,
                index_all,
                build_server,
                clock,
                Err(e),
            ),
            result matches Ok((service, timings)) ==> service.server@.wf() && init_gives::<C, W, D, B, X, S, Clock>(
                config,
                layout,
                map.entries(),
                world,
                build_directory,
                index_all,
                build_server,
                clock,
                Ok((service.server@, service.directory, service.serving, timings)),
            ),
    {
        let (world, start) = clock(world);
        let keys = collect_keys(map);
        let (world, built) = build_directory(world, config, layout, &keys, 0);
        let directory = match built {
            Ok(directory) => directory,
            Err(e) => {
                return Err(EthPirError::from(e));
            },
        };
        let (world, middle) = clock(world);
        let ghost at_middle = (world, middle);
        let slots = index_all(&directory, &keys);
        let records = scatter_map_records::<C>(map, slots.as_slice());
        let (world, end) = clock(world);
        let (world, ready) = build_server(world, config, layout, &records);
        let steps = match ready {
            Ok(steps) => steps,
            Err(e) => {
                assert(serve_gives::<C, W, D, S, Clock>(
                    config,
                    layout,
                    map.entries(),
                    start,
                    at_middle,
                    directory,
                    slots@,
                    build_server,
                    clock,
                    Err(e),
                ));
                return Err(e);
            },
        };
        let timings = InitTimings {
            keyword_index: middle.since(start),
            records_scatter: end.since(middle),
            server_alloc: steps.server_alloc,
            database_encode: steps.database_encode,
            query_mask: steps.query_mask,
            offline: steps.offline,
            staging_alloc: steps.staging_alloc,
        };
        let state = DirectoryState { version: 0, mphf_len: keys.len(), delta_len: 0 };
        let server = Self::assemble(state, records);
        assert(server@ == fresh(map.entries().len(), records@));
        assert(serving_steps(timings) == steps);
        assert(serve_gives::<C, W, D, S, Clock>(
            config,
            layout,
            map.entries(),
            start,
            at_middle,
            directory,
            slots@,
            build_server,
            clock,
            Ok((server@, directory, world, timings)),
        ));
        Ok((Service { server, directory, serving: world }, timings))
    }

    /// A server that holds `records` for `directory`, right after the database was
    /// built from them.
    pub fn assemble(directory: DirectoryState, records: Vec<Record>) -> (server: Self)
        requires
            directory.wf(),
            records@.len() == directory.addressed(),
        ensures
            server@.wf(),
            server@ == (ServerView {
                directory,
                records: records@,
                served: records@,
                pending: 0,
            }),
    {
        let ghost served = records@;
        EthPirServer { directory, records, served: Ghost(served), pending: 0, codec: PhantomData }
    }

    /// Writes `value` under `addr`.
    ///
    /// `index` gives the slot that the directory names for an address, known to it
    /// or not; `push` adds an address to the directory's tail. An address that has
    /// its record is overwritten in place, and the directory stays as it is. The
    /// record changes at once; what queries read does not change until the database
    /// is rebuilt.
    pub fn update<D, I, P>(
        &mut self,
        directory: D,
        addr: Address,
        value: C::Value,
        index: I,
        push: P,
    ) -> (result: (D, Result<(), EthPirError>)) where
        I: FnOnce(&D, &Address) -> usize,
        P: FnOnce(D, &Address) -> (D, Result<usize, KeywordError>),

        requires
            old(self)@.wf(),
            old(self)@.pending < usize::MAX,
            call_requires(index, (&directory, &addr)),
            call_requires(push, (directory, &addr)),
        ensures
            final(self)@.wf(),
            exists|slot: usize| #[trigger]
                call_ensures(index, (&directory, &addr), slot) && if slot
                    < old(self)@.records.len() && record::address_in(
                    old(self)@.records[slot as int],
                ) == addr {
                    &&& result == (directory, Ok::<(), EthPirError>(()))
                    &&& final(self)@ == old(self)@.written(
                        slot as int,
                        record::record_for::<C>(addr, value),
                    ).counted()
                } else {
                    exists|pushed: (D, Result<usize, KeywordError>)| #[trigger]
                        call_ensures(push, (directory, &addr), pushed) && {
                            let (server, outcome) = inserted(
                                old(self)@,
                                slot,
                                addr,
                                record::record_for::<C>(addr, value),
                                pushed.1,
                            );
                            &&& result == (pushed.0, outcome)
                            &&& final(self)@ == settled(server, outcome)
                        }
                },
            result.1 is Err ==> final(self)@ == old(self)@,
            result.1 is Ok ==> {
                &&& final(self)@.pending == old(self)@.pending + 1
                &&& final(self)@.served == old(self)@.served
                &&& final(self)@.directory.version == old(self)@.directory.version
                &&& final(self)@.directory.mphf_len == old(self)@.directory.mphf_len
                &&& exists|s: int|
                    {
                        &&& 0 <= s <= old(self)@.records.len()
                        &&& #[trigger] final(self)@.records[s] == record::record_for::<C>(
                            addr,
                            value,
                        )
                        &&& final(self)@.records.len() == old(self)@.records.len() + if s
                            == old(self)@.records.len() {
                            1nat
                        } else {
                            0
                        }
                        &&& forall|t: int|
                            0 <= t < old(self)@.records.len() && t != s
                                ==> #[trigger] final(self)@.records[t] == old(self)@.records[t]
                    }
            },
    {
        let slot = index(&directory, &addr);
        let (directory, outcome) = if slot < self.records.len() && belongs_to(
            &self.records[slot],
            &addr,
        ) {
            self.records[slot] = record_of::<C>(&addr, &value);
            (directory, Ok(()))
        } else {
            let (directory, pushed) = push(directory, &addr);
            (directory, self.insert_or_reclaim(slot, addr, value, pushed))
        };
        if outcome.is_ok() {
            self.pending += 1;
            proof {
                let s = if self@.records.len() > old(self)@.records.len() {
                    old(self)@.records.len() as int
                } else {
                    slot as int
                };
                assert(self@.records[s] == record::record_for::<C>(addr, value));
            }
        }
        (directory, outcome)
    }

    /// Writes `value` under an address that slot `slot` does not hold, given what
    /// the keyword layer said to pushing the address onto the directory's tail. It
    /// is for [`update`](Self::update) to count the update as pending.
    pub fn insert_or_reclaim(
        &mut self,
        slot: usize,
        addr: Address,
        value: C::Value,
        pushed: Result<usize, KeywordError>,
    ) -> (result: Result<(), EthPirError>)
        requires
            old(self)@.aligned(),
        ensures
            final(self)@.aligned(),
            (final(self)@, result) == inserted(
                old(self)@,
                slot,
                addr,
                record::record_for::<C>(addr, value),
                pushed,
            ),
            final(self)@.pending == old(self)@.pending,
            final(self)@.served == old(self)@.served,
            pushed is Ok ==> result is Ok && final(self)@.records == old(self)@.records.push(
                record::record_for::<C>(addr, value),
            ) && final(self)@.directory.delta_len == old(self)@.directory.delta_len + 1,
            pushed matches Err(e) ==> final(self)@.directory == old(self)@.directory && if e.duplicate
                == Some(addr) && slot < old(self)@.records.len() {
                result is Ok && final(self)@.records == old(self)@.records.update(
                    slot as int,
                    record::record_for::<C>(addr, value),
                )
            } else {
                result == Err::<(), _>(EthPirError::Keyword(e)) && final(self)@ == old(self)@
            },
    {
        match pushed {
            Ok(_) => {
                self.records.push(record_of::<C>(&addr, &value));
                self.directory.delta_len = self.records.len() - self.directory.mphf_len;
                Ok(())
            },
            Err(e) => {
                let reclaim = match &e.duplicate {
                    Some(key) => record::same_address(key, &addr) && slot < self.records.len(),
                    None => false,
                };
                if reclaim {
                    self.records[slot] = record_of::<C>(&addr, &value);
                    Ok(())
                } else {
                    Err(EthPirError::from(e))
                }
            },
        }
    }

    /// How many addresses the directory addresses: base and tail.
    pub fn len(&self) -> (n: usize)
        requires
            self@.wf(),
        ensures
            n == self@.directory.addressed(),
            n == self@.records.len(),
    {
        self.directory.len()
    }

    pub fn is_empty(&self) -> (empty: bool)
        requires
            self@.wf(),
        ensures
            empty == (self@.directory.addressed() == 0),
    {
        self.directory.len() == 0
    }

    /// How many updates were applied but not yet published.
    pub fn pending(&self) -> (n: usize)
        ensures
            n == self@.pending,
    {
        self.pending
    }

    /// Where the server's memory goes, given what the PIR layer holds and how many
    /// bytes the directory takes in wire form.
    pub fn memory_report(
        &self,
        serving: ServingMemory,
        staging_database: usize,
        directory_bytes: usize,
    ) -> (memory: MemoryReport)
        requires
            self@.records.len() * RECORD_BYTES <= usize::MAX,
            directory_bytes + self@.directory.delta_len * TAIL_ENTRY_BYTES <= usize::MAX,
        ensures
            memory == (MemoryReport {
                serving_database: serving.database,
                staging_database,
                precomputation: serving.precomputation,
                online_scratch_pool: serving.online_scratch_pool,
                records: (self@.records.len() * RECORD_BYTES) as usize,
                keyword_directory: (directory_bytes + self@.directory.delta_len
                    * TAIL_ENTRY_BYTES) as usize,
            }),
    {
        MemoryReport {
            serving_database: serving.database,
            staging_database,
            precomputation: serving.precomputation,
            online_scratch_pool: serving.online_scratch_pool,
            records: self.records.len() * RECORD_BYTES,
            keyword_directory: directory_bytes + self.directory.delta_len * TAIL_ENTRY_BYTES,
        }
    }

    /// The plaintext record in each slot.
    pub fn records(&self) -> (records: &Vec<Record>)
        ensures
            records@ == self@.records,
    {
        &self.records
    }
}

} // verus!
