//! What starting a server does, from a map or from a checkpoint, stated over the calls
//! that it is given and the values that it hands back.

use vstd::prelude::*;

use std::io::ErrorKind;

use crate::address_map::AddressMap;
use crate::client_laws;
use crate::error::{EthPirError, KeywordError, WireError};
use crate::record;
use crate::record::{Address, Record, RecordCodec};
use crate::server::init_laws;
use crate::server::keyword;
use crate::server::keyword::{DirectoryState, KeywordCheckpoint, RestoreReport};
use crate::server::laws;
use crate::server::records;
use crate::server::report::{Duration, InitTimings, ServingTimings};
use crate::server::restore;
use crate::server::restore_laws;
use crate::server::service;
use crate::server::service::Service;
use crate::server::EthPirServer;
use crate::shape::{Config, DatabaseLayout};

verus! {

/// Whether `service` holds and serves the entries of `map`, in the shape given: the
/// directory was built from the map's addresses in their order, each address stands at
/// the slot that it names, and the PIR layer was handed exactly the server's records.
pub open spec fn started<C: RecordCodec, W, D, B, X, S>(
    config: Config,
    layout: DatabaseLayout,
    map: AddressMap<C::Value>,
    build_directory: B,
    index_all: X,
    build_server: S,
    service: Service<C, D, W>,
) -> bool where
    B: FnOnce(W, Config, DatabaseLayout, &Vec<Address>, u64) -> (W, Result<D, KeywordError>),
    X: FnOnce(&D, &Vec<Address>) -> Vec<usize>,
    S: FnOnce(W, Config, DatabaseLayout, &Vec<Record>) -> (W, Result<ServingTimings, EthPirError>),
 {
    let server = service.server@;
    &&& server.records.len() == map.entries().len()
    &&& server.served == server.records
    &&& server.pending == 0
    &&& server.directory.version == 0
    &&& server.directory.mphf_len == map.entries().len()
    &&& server.directory.delta_len == 0
    &&& exists|w: W, handed: Vec<Record>, ready: (W, Result<ServingTimings, EthPirError>)|
        #![trigger call_ensures(build_server, (w, config, layout, &handed), ready)]
        call_ensures(build_server, (w, config, layout, &handed), ready) && handed@
            == server.records && ready.0 == service.serving && ready.1 is Ok
    &&& exists|w: W, keys: Vec<Address>, built: (W, Result<D, KeywordError>)|
        #![trigger call_ensures(build_directory, (w, config, layout, &keys, 0u64), built)]
        {
            &&& call_ensures(build_directory, (w, config, layout, &keys, 0u64), built)
            &&& built.1 == Ok::<D, KeywordError>(service.directory)
            &&& keys@.len() == map.entries().len()
            &&& forall|i: int| 0 <= i < keys@.len() ==> #[trigger] keys@[i] == map.entries()[i].0
        }
    &&& exists|keys: Vec<Address>, slots: Vec<usize>|
        keys@ == records::addresses_of(map.entries()) && #[trigger] call_ensures(
            index_all,
            (&service.directory, &keys),
            slots,
        ) && laws::all_found::<C>(server.served, map.entries(), slots@)
}

/// Whether building the directory or getting the PIR layer ready can have failed with
/// `e`.
pub open spec fn start_failed<W, D, B, S>(
    config: Config,
    layout: DatabaseLayout,
    build_directory: B,
    build_server: S,
    e: EthPirError,
) -> bool where
    B: FnOnce(W, Config, DatabaseLayout, &Vec<Address>, u64) -> (W, Result<D, KeywordError>),
    S: FnOnce(W, Config, DatabaseLayout, &Vec<Record>) -> (W, Result<ServingTimings, EthPirError>),
 {
    ||| exists|w: W, keys: Vec<Address>, built: (W, Result<D, KeywordError>)| #[trigger]
        call_ensures(build_directory, (w, config, layout, &keys, 0u64), built) && (
        built.1 matches Err(k) && e == EthPirError::Keyword(k))
    ||| exists|w: W, handed: Vec<Record>, ready: (W, Result<ServingTimings, EthPirError>)|
        #[trigger]
        call_ensures(build_server, (w, config, layout, &handed), ready) && ready.1 == Err::<
            ServingTimings,
            EthPirError,
        >(e)
}

proof fn init_ends<C: RecordCodec, W, D, B, X, S, Clock>(
    config: Config,
    layout: DatabaseLayout,
    map: AddressMap<C::Value>,
    world: W,
    build_directory: B,
    index_all: X,
    build_server: S,
    clock: Clock,
    service: Service<C, D, W>,
    timings: InitTimings,
) where
    B: FnOnce(W, Config, DatabaseLayout, &Vec<Address>, u64) -> (W, Result<D, KeywordError>),
    X: FnOnce(&D, &Vec<Address>) -> Vec<usize>,
    S: FnOnce(W, Config, DatabaseLayout, &Vec<Record>) -> (W, Result<ServingTimings, EthPirError>),
    Clock: Fn(W) -> (W, Duration),

    requires
        forall|directory: D, keys: Vec<Address>, slots: Vec<usize>| #[trigger]
            call_ensures(index_all, (&directory, &keys), slots) ==> records::one_slot_each(
                slots@,
                keys@.len(),
            ),
        service::init_gives::<C, W, D, B, X, S, Clock>(
            config,
            layout,
            map.entries(),
            world,
            build_directory,
            index_all,
            build_server,
            clock,
            Ok((service.server@, service.directory, service.serving, timings)),
        ),
    ensures
        started::<C, W, D, B, X, S>(
            config,
            layout,
            map,
            build_directory,
            index_all,
            build_server,
            service,
        ),
{
    map.lemma_len();
    init_laws::law_init_serves_the_records::<C, W, D, B, X, S, Clock>(
        config,
        layout,
        map.entries(),
        world,
        build_directory,
        index_all,
        build_server,
        clock,
        service.server@,
        service.directory,
        service.serving,
        timings,
    );
    laws::law_init_serves_every_address::<C, W, D, B, X, S, Clock>(
        config,
        layout,
        map.entries(),
        world,
        build_directory,
        index_all,
        build_server,
        clock,
        service.server@,
        service.directory,
        service.serving,
        timings,
    );
}

/// A server that was started from a map serves that map, whatever its size, and
/// starting one fails only where building the directory or getting the PIR layer ready
/// did.
pub proof fn law_started_server_serves_its_map<C: RecordCodec, W, D, B, X, S, Clock>(
    config: Config,
    layout: DatabaseLayout,
    map: AddressMap<C::Value>,
    world: W,
    build_directory: B,
    index_all: X,
    build_server: S,
    clock: Clock,
    timed: Result<(Service<C, D, W>, InitTimings), EthPirError>,
    untimed: Result<Service<C, D, W>, EthPirError>,
    usual: Result<Service<C, D, W>, EthPirError>,
) where
    B: FnOnce(W, Config, DatabaseLayout, &Vec<Address>, u64) -> (W, Result<D, KeywordError>),
    X: FnOnce(&D, &Vec<Address>) -> Vec<usize>,
    S: FnOnce(W, Config, DatabaseLayout, &Vec<Record>) -> (W, Result<ServingTimings, EthPirError>),
    Clock: Fn(W) -> (W, Duration),

    requires
        forall|directory: D, keys: Vec<Address>, slots: Vec<usize>| #[trigger]
            call_ensures(index_all, (&directory, &keys), slots) ==> records::one_slot_each(
                slots@,
                keys@.len(),
            ),
    ensures
        call_ensures(
            EthPirServer::<C>::init_with_timed::<W, D, B, X, S, Clock>,
            (world, config, layout, &map, build_directory, index_all, build_server, clock),
            timed,
        ) ==> match timed {
            Ok((service, _)) => started::<C, W, D, B, X, S>(
                config,
                layout,
                map,
                build_directory,
                index_all,
                build_server,
                service,
            ),
            Err(e) => start_failed(config, layout, build_directory, build_server, e),
        },
        call_ensures(
            EthPirServer::<C>::init_with::<W, D, B, X, S, Clock>,
            (world, config, layout, &map, build_directory, index_all, build_server, clock),
            untimed,
        ) ==> match untimed {
            Ok(service) => started::<C, W, D, B, X, S>(
                config,
                layout,
                map,
                build_directory,
                index_all,
                build_server,
                service,
            ),
            Err(e) => start_failed(config, layout, build_directory, build_server, e),
        },
        call_ensures(
            EthPirServer::<C>::init::<W, D, B, X, S, Clock>,
            (world, &map, build_directory, index_all, build_server, clock),
            usual,
        ) ==> match usual {
            Ok(service) => started::<C, W, D, B, X, S>(
                client_laws::usual_config(),
                client_laws::usual_layout(),
                map,
                build_directory,
                index_all,
                build_server,
                service,
            ),
            Err(e) => start_failed(
                client_laws::usual_config(),
                client_laws::usual_layout(),
                build_directory,
                build_server,
                e,
            ),
        },
{
    if call_ensures(
        EthPirServer::<C>::init_with_timed::<W, D, B, X, S, Clock>,
        (world, config, layout, &map, build_directory, index_all, build_server, clock),
        timed,
    ) {
        match timed {
            Ok((service, timings)) => {
                init_ends(
                    config,
                    layout,
                    map,
                    world,
                    build_directory,
                    index_all,
                    build_server,
                    clock,
                    service,
                    timings,
                );
            },
            Err(e) => {
                init_laws::law_init_fails_only_where_a_call_fails::<C, W, D, B, X, S, Clock>(
                    config,
                    layout,
                    map.entries(),
                    world,
                    build_directory,
                    index_all,
                    build_server,
                    clock,
                    e,
                );
            },
        }
    }
    if call_ensures(
        EthPirServer::<C>::init_with::<W, D, B, X, S, Clock>,
        (world, config, layout, &map, build_directory, index_all, build_server, clock),
        untimed,
    ) {
        match untimed {
            Ok(service) => {
                let timings = choose|timings: InitTimings| #[trigger]
                    service::init_gives::<C, W, D, B, X, S, Clock>(
                        config,
                        layout,
                        map.entries(),
                        world,
                        build_directory,
                        index_all,
                        build_server,
                        clock,
                        Ok((service.server@, service.directory, service.serving, timings)),
                    );
                init_ends(
                    config,
                    layout,
                    map,
                    world,
                    build_directory,
                    index_all,
                    build_server,
                    clock,
                    service,
                    timings,
                );
            },
            Err(e) => {
                init_laws::law_init_fails_only_where_a_call_fails::<C, W, D, B, X, S, Clock>(
                    config,
                    layout,
                    map.entries(),
                    world,
                    build_directory,
                    index_all,
                    build_server,
                    clock,
                    e,
                );
            },
        }
    }
    if call_ensures(
        EthPirServer::<C>::init::<W, D, B, X, S, Clock>,
        (world, &map, build_directory, index_all, build_server, clock),
        usual,
    ) {
        let config = client_laws::usual_config();
        let layout = client_laws::usual_layout();
        assert(config == crate::shape::default_config());
        assert(layout == crate::shape::default_layout());
        match usual {
            Ok(service) => {
                let timings = choose|timings: InitTimings| #[trigger]
                    service::init_gives::<C, W, D, B, X, S, Clock>(
                        config,
                        layout,
                        map.entries(),
                        world,
                        build_directory,
                        index_all,
                        build_server,
                        clock,
                        Ok((service.server@, service.directory, service.serving, timings)),
                    );
                init_ends(
                    config,
                    layout,
                    map,
                    world,
                    build_directory,
                    index_all,
                    build_server,
                    clock,
                    service,
                    timings,
                );
            },
            Err(e) => {
                init_laws::law_init_fails_only_where_a_call_fails::<C, W, D, B, X, S, Clock>(
                    config,
                    layout,
                    map.entries(),
                    world,
                    build_directory,
                    index_all,
                    build_server,
                    clock,
                    e,
                );
            },
        }
    }
}

/// A server may be started from any map, wherever the calls that are handed over may be
/// made and a directory names a slot within reach for each address.
pub proof fn law_server_starts_from_any_map<C: RecordCodec, W, D, B, X, S, Clock>(
    config: Config,
    layout: DatabaseLayout,
    map: AddressMap<C::Value>,
    world: W,
    build_directory: B,
    index_all: X,
    build_server: S,
    clock: Clock,
) where
    B: FnOnce(W, Config, DatabaseLayout, &Vec<Address>, u64) -> (W, Result<D, KeywordError>),
    X: FnOnce(&D, &Vec<Address>) -> Vec<usize>,
    S: FnOnce(W, Config, DatabaseLayout, &Vec<Record>) -> (W, Result<ServingTimings, EthPirError>),
    Clock: Fn(W) -> (W, Duration),

    requires
        map.wf(),
        forall|w: W, c: Config, l: DatabaseLayout, keys: Vec<Address>, version: u64| #[trigger]
            call_requires(build_directory, (w, c, l, &keys, version)),
        forall|directory: D, keys: Vec<Address>| #[trigger]
            call_requires(index_all, (&directory, &keys)),
        forall|directory: D, keys: Vec<Address>, slots: Vec<usize>| #[trigger]
            call_ensures(index_all, (&directory, &keys), slots) ==> slots@.len() == keys@.len()
                && forall|i: int| 0 <= i < slots@.len() ==> #[trigger] slots@[i] < keys@.len(),
        forall|w: W, c: Config, l: DatabaseLayout, handed: Vec<Record>| #[trigger]
            call_requires(build_server, (w, c, l, &handed)),
        forall|w: W| #[trigger] call_requires(clock, (w,)),
    ensures
        call_requires(
            EthPirServer::<C>::init_with_timed::<W, D, B, X, S, Clock>,
            (world, config, layout, &map, build_directory, index_all, build_server, clock),
        ),
        call_requires(
            EthPirServer::<C>::init_with::<W, D, B, X, S, Clock>,
            (world, config, layout, &map, build_directory, index_all, build_server, clock),
        ),
        call_requires(
            EthPirServer::<C>::init::<W, D, B, X, S, Clock>,
            (world, &map, build_directory, index_all, build_server, clock),
        ),
{
    assert forall|c: Config, l: DatabaseLayout| #[trigger]
        service::init_callable::<C, W, D, B, X, S, Clock>(
            c,
            l,
            map.entries(),
            build_directory,
            index_all,
            build_server,
            clock,
        ) by {}
    assert(service::init_callable::<C, W, D, B, X, S, Clock>(
        config,
        layout,
        map.entries(),
        build_directory,
        index_all,
        build_server,
        clock,
    ));
    assert(service::init_callable::<C, W, D, B, X, S, Clock>(
        crate::shape::default_config(),
        crate::shape::default_layout(),
        map.entries(),
        build_directory,
        index_all,
        build_server,
        clock,
    ));
}

/// Whether `service` was restarted from the checkpoint: each slot of the base holds the
/// record of its address where the map still has it and is empty otherwise, every
/// address of the map is served, and the PIR layer was handed exactly the server's
/// records.
pub open spec fn restarted<C: RecordCodec, W, D, R, S>(
    world: W,
    config: Config,
    layout: DatabaseLayout,
    blob: &[u8],
    keys: Seq<Address>,
    map: AddressMap<C::Value>,
    read: R,
    build_server: S,
    service: Service<C, D, W>,
) -> bool where
    R: FnOnce(&[u8]) -> Result<(D, DirectoryState), WireError>,
    S: FnOnce(W, Config, DatabaseLayout, &Vec<Record>) -> (W, Result<ServingTimings, EthPirError>),
 {
    let server = service.server@;
    &&& server.served == server.records
    &&& server.pending == 0
    &&& exists|handed: Vec<Record>, ready: (W, Result<ServingTimings, EthPirError>)|
        #![trigger call_ensures(build_server, (world, config, layout, &handed), ready)]
        call_ensures(build_server, (world, config, layout, &handed), ready) && handed@
            == server.records && ready.0 == service.serving && ready.1 is Ok
    &&& exists|found: D, state: DirectoryState| #[trigger]
        call_ensures(read, (blob,), Ok((found, state))) && keys.len() == state.mphf_len
            && server.directory.version == state.version && server.directory.mphf_len
            == state.mphf_len && server.records.len() >= state.mphf_len + state.delta_len
    &&& forall|s: int|
        0 <= s < keys.len() ==> #[trigger] server.records[s] == if map@.contains_key(keys[s])
            && keys[s] != record::vacant_address() {
            record::record_for::<C>(keys[s], map@[keys[s]])
        } else {
            record::vacant_record()
        }
    &&& forall|addr: Address| #[trigger]
        map@.contains_key(addr) && addr != record::vacant_address() ==> exists|s: int|
            0 <= s < server.records.len() && #[trigger] server.records[s] == record::record_for::<
                C,
            >(addr, map@[addr])
}

/// Whether one of the calls of a restart, or the check of the number of keys, can have
/// failed with `e`.
pub open spec fn restart_failed<W, D, R, P, S>(
    world: W,
    config: Config,
    layout: DatabaseLayout,
    blob: &[u8],
    keys: Seq<Address>,
    read: R,
    push: P,
    build_server: S,
    e: EthPirError,
) -> bool where
    R: FnOnce(&[u8]) -> Result<(D, DirectoryState), WireError>,
    P: Fn(D, &Address) -> (D, Result<usize, KeywordError>),
    S: FnOnce(W, Config, DatabaseLayout, &Vec<Record>) -> (W, Result<ServingTimings, EthPirError>),
 {
    ||| exists|found: Result<(D, DirectoryState), WireError>| #[trigger]
        call_ensures(read, (blob,), found) && (found matches Err(w) && client_laws::says(e, w))
    ||| exists|found: Result<(D, DirectoryState), WireError>| #[trigger]
        call_ensures(read, (blob,), found) && (found matches Ok((_, state)) && state.mphf_len
            != keys.len()) && (e matches EthPirError::Io { kind, message: _ } && kind
            == ErrorKind::InvalidData)
    ||| exists|d: D, addr: Address, pushed: (D, Result<usize, KeywordError>)| #[trigger]
        call_ensures(push, (d, &addr), pushed) && (pushed.1 matches Err(k) && e
            == EthPirError::Keyword(k))
    ||| exists|handed: Vec<Record>, ready: (W, Result<ServingTimings, EthPirError>)| #[trigger]
        call_ensures(build_server, (world, config, layout, &handed), ready) && ready.1 == Err::<
            ServingTimings,
            EthPirError,
        >(e)
}

proof fn restore_ends<C: RecordCodec, W, D, R, X, P, S>(
    world: W,
    config: Config,
    layout: DatabaseLayout,
    blob: &[u8],
    keys: Seq<Address>,
    map: AddressMap<C::Value>,
    read: R,
    index: X,
    push: P,
    build_server: S,
    service: Service<C, D, W>,
    report: RestoreReport,
) where
    R: FnOnce(&[u8]) -> Result<(D, DirectoryState), WireError>,
    X: Fn(&D, &Address) -> usize,
    P: Fn(D, &Address) -> (D, Result<usize, KeywordError>),
    S: FnOnce(W, Config, DatabaseLayout, &Vec<Record>) -> (W, Result<ServingTimings, EthPirError>),

    requires
        map.wf(),
        service.server@.wf(),
        restore::restore_gives::<C, W, D, R, X, P, S>(
            world,
            config,
            layout,
            blob,
            keys,
            map.entries(),
            map@,
            read,
            index,
            push,
            build_server,
            Ok((service.server@, service.directory, service.serving, report)),
        ),
    ensures
        restarted::<C, W, D, R, S>(
            world,
            config,
            layout,
            blob,
            keys,
            map,
            read,
            build_server,
            service,
        ),
{
    let entries = map.entries();
    let server = service.server@;
    map.lemma_distinct();
    assert(map@ == crate::address_map::entries_as_map(entries));
    restore_laws::law_restored_records_are_handed_on::<C, W, D, R, X, P, S>(
        world,
        config,
        layout,
        blob,
        keys,
        entries,
        map@,
        read,
        index,
        push,
        build_server,
        server,
        service.directory,
        service.serving,
        report,
    );
    restore_laws::law_restore_moves_no_address::<C, W, D, R, X, P, S>(
        world,
        config,
        layout,
        blob,
        keys,
        entries,
        read,
        index,
        push,
        build_server,
        server,
        service.directory,
        service.serving,
        report,
    );
    restore_laws::law_restore_serves_every_address::<C, W, D, R, X, P, S>(
        world,
        config,
        layout,
        blob,
        keys,
        entries,
        read,
        index,
        push,
        build_server,
        server,
        service.directory,
        service.serving,
        report,
    );
    assert forall|addr: Address| #[trigger]
        map@.contains_key(addr) && addr != record::vacant_address() implies exists|s: int|
        0 <= s < server.records.len() && #[trigger] server.records[s] == record::record_for::<C>(
            addr,
            map@[addr],
        ) by {
        let i = crate::address_map::position_of(entries, addr);
        assert(entries[i].0 == addr);
        assert(restore_laws::serves::<C>(server.served, entries[i].0, entries[i].1));
    }
}

/// A server that was restarted from a checkpoint serves the map without moving an
/// address, whatever the number of records, and restarting one fails only where one of
/// the calls did or the checkpoint does not fit its directory.
pub proof fn law_restarted_server_serves_its_map<C: RecordCodec, W, D, R, X, P, S>(
    world: W,
    config: Config,
    layout: DatabaseLayout,
    blob: &[u8],
    keys: &[Address],
    map: AddressMap<C::Value>,
    read: R,
    index: X,
    push: P,
    build_server: S,
    result: Result<(Service<C, D, W>, RestoreReport), EthPirError>,
    usual: Result<(Service<C, D, W>, RestoreReport), EthPirError>,
) where
    R: FnOnce(&[u8]) -> Result<(D, DirectoryState), WireError>,
    X: Fn(&D, &Address) -> usize,
    P: Fn(D, &Address) -> (D, Result<usize, KeywordError>),
    S: FnOnce(W, Config, DatabaseLayout, &Vec<Record>) -> (W, Result<ServingTimings, EthPirError>),

    requires
        map.wf(),
    ensures
        call_ensures(
            EthPirServer::<C>::restore_with::<W, D, R, X, P, S>,
            (world, config, layout, blob, keys, &map, read, index, push, build_server),
            result,
        ) ==> match result {
            Ok((service, _)) => restarted::<C, W, D, R, S>(
                world,
                config,
                layout,
                blob,
                keys@,
                map,
                read,
                build_server,
                service,
            ),
            Err(e) => restart_failed(
                world,
                config,
                layout,
                blob,
                keys@,
                read,
                push,
                build_server,
                e,
            ),
        },
        call_ensures(
            EthPirServer::<C>::restore::<W, D, R, X, P, S>,
            (world, blob, keys, &map, read, index, push, build_server),
            usual,
        ) ==> match usual {
            Ok((service, _)) => restarted::<C, W, D, R, S>(
                world,
                client_laws::usual_config(),
                client_laws::usual_layout(),
                blob,
                keys@,
                map,
                read,
                build_server,
                service,
            ),
            Err(e) => restart_failed(
                world,
                client_laws::usual_config(),
                client_laws::usual_layout(),
                blob,
                keys@,
                read,
                push,
                build_server,
                e,
            ),
        },
{
    if call_ensures(
        EthPirServer::<C>::restore_with::<W, D, R, X, P, S>,
        (world, config, layout, blob, keys, &map, read, index, push, build_server),
        result,
    ) {
        match result {
            Ok((service, report)) => restore_ends(
                world,
                config,
                layout,
                blob,
                keys@,
                map,
                read,
                index,
                push,
                build_server,
                service,
                report,
            ),
            Err(e) => restore_laws::law_restart_fails_only_where_a_call_fails::<
                C,
                W,
                D,
                R,
                X,
                P,
                S,
            >(
                world,
                config,
                layout,
                blob,
                keys@,
                map.entries(),
                map@,
                read,
                index,
                push,
                build_server,
                e,
            ),
        }
    }
    if call_ensures(
        EthPirServer::<C>::restore::<W, D, R, X, P, S>,
        (world, blob, keys, &map, read, index, push, build_server),
        usual,
    ) {
        let config = client_laws::usual_config();
        let layout = client_laws::usual_layout();
        assert(config == crate::shape::default_config());
        assert(layout == crate::shape::default_layout());
        match usual {
            Ok((service, report)) => restore_ends(
                world,
                config,
                layout,
                blob,
                keys@,
                map,
                read,
                index,
                push,
                build_server,
                service,
                report,
            ),
            Err(e) => restore_laws::law_restart_fails_only_where_a_call_fails::<
                C,
                W,
                D,
                R,
                X,
                P,
                S,
            >(
                world,
                config,
                layout,
                blob,
                keys@,
                map.entries(),
                map@,
                read,
                index,
                push,
                build_server,
                e,
            ),
        }
    }
}

/// Where a directory answers as `names` and `size` say, a restart reports each address of
/// the map as placed or appended and each base slot that stays empty as vacant, and
/// serves each address where the directory that it hands back names it.
pub proof fn law_restart_reports_every_address<C: RecordCodec, W, D, R, X, P, S>(
    names: spec_fn(D, Address) -> int,
    size: spec_fn(D) -> int,
    world: W,
    config: Config,
    layout: DatabaseLayout,
    blob: &[u8],
    keys: &[Address],
    map: AddressMap<C::Value>,
    read: R,
    index: X,
    push: P,
    build_server: S,
    service: Service<C, D, W>,
    report: RestoreReport,
) where
    R: FnOnce(&[u8]) -> Result<(D, DirectoryState), WireError>,
    X: Fn(&D, &Address) -> usize,
    P: Fn(D, &Address) -> (D, Result<usize, KeywordError>),
    S: FnOnce(W, Config, DatabaseLayout, &Vec<Record>) -> (W, Result<ServingTimings, EthPirError>),

    requires
        map.wf(),
        forall|i: int|
            0 <= i < map.entries().len() ==> (#[trigger] map.entries()[i]).0
                != record::vacant_address(),
        keys@.len() + map.entries().len() <= usize::MAX,
        restore_laws::directory_obeys(index, push, names, size),
        forall|found: D, state: DirectoryState| #[trigger]
            call_ensures(read, (blob,), Ok((found, state))) ==> restore_laws::matches_checkpoint(
                names,
                size,
                found,
                state,
                keys@,
                map.entries(),
            ),
        call_ensures(
            EthPirServer::<C>::restore_with::<W, D, R, X, P, S>,
            (world, config, layout, blob, keys, &map, read, index, push, build_server),
            Ok((service, report)),
        ),
    ensures
        report.placed + report.appended == map.entries().len(),
        report.vacant == restore::count(
            keys@.len(),
            |s: int| !(map@.contains_key(keys@[s]) && keys@[s] != record::vacant_address()),
        ),
        forall|i: int|
            #![trigger map.entries()[i]]
            0 <= i < map.entries().len() ==> {
                let slot = names(service.directory, map.entries()[i].0);
                &&& 0 <= slot < service.server@.served.len()
                &&& service.server@.served[slot] == record::record_for::<C>(
                    map.entries()[i].0,
                    map.entries()[i].1,
                )
            },
{
    map.lemma_distinct();
    assert(map@ == crate::address_map::entries_as_map(map.entries()));
    let found = restore_laws::law_restore_accounts_for_every_address::<C, W, D, R, X, P, S>(
        names,
        size,
        world,
        config,
        layout,
        blob,
        keys@,
        map.entries(),
        read,
        index,
        push,
        build_server,
        service.server@,
        service.directory,
        service.serving,
        report,
    );
    restore::lemma_count_same(
        keys@.len(),
        |s: int| !restore::comes_back(keys@[s], crate::address_map::entries_as_map(map.entries())),
        |s: int| !(map@.contains_key(keys@[s]) && keys@[s] != record::vacant_address()),
    );
}

/// A server may be restarted with any keys and any map that fit in memory together,
/// wherever the calls that are handed over may be made.
pub proof fn law_server_restarts_with_any_map<C: RecordCodec, W, D, R, X, P, S>(
    world: W,
    config: Config,
    layout: DatabaseLayout,
    blob: &[u8],
    keys: &[Address],
    map: AddressMap<C::Value>,
    read: R,
    index: X,
    push: P,
    build_server: S,
) where
    R: FnOnce(&[u8]) -> Result<(D, DirectoryState), WireError>,
    X: Fn(&D, &Address) -> usize,
    P: Fn(D, &Address) -> (D, Result<usize, KeywordError>),
    S: FnOnce(W, Config, DatabaseLayout, &Vec<Record>) -> (W, Result<ServingTimings, EthPirError>),

    requires
        map.wf(),
        keys@.len() + map.entries().len() <= usize::MAX,
        call_requires(read, (blob,)),
        forall|found: Result<(D, DirectoryState), WireError>| #[trigger]
            call_ensures(read, (blob,), found) ==> (found matches Ok((_, state)) ==> state.mphf_len
                + state.delta_len <= usize::MAX),
        forall|d: D, addr: Address| #[trigger] call_requires(index, (&d, &addr)),
        forall|d: D, addr: Address| #[trigger] call_requires(push, (d, &addr)),
        forall|w: W, c: Config, l: DatabaseLayout, handed: Vec<Record>| #[trigger]
            call_requires(build_server, (w, c, l, &handed)),
    ensures
        call_requires(
            EthPirServer::<C>::restore_with::<W, D, R, X, P, S>,
            (world, config, layout, blob, keys, &map, read, index, push, build_server),
        ),
        call_requires(
            EthPirServer::<C>::restore::<W, D, R, X, P, S>,
            (world, blob, keys, &map, read, index, push, build_server),
        ),
{
    assert(restore::restore_callable::<C, W, D, R, X, P, S>(
        config,
        layout,
        blob,
        map.entries(),
        read,
        index,
        push,
        build_server,
    ));
    assert(restore::restore_callable::<C, W, D, R, X, P, S>(
        crate::shape::default_config(),
        crate::shape::default_layout(),
        blob,
        map.entries(),
        read,
        index,
        push,
        build_server,
    ));
}

/// A checkpoint holds the directory as it was written into an empty buffer, its
/// version, and the address in each slot of the base; it fails only where writing did.
pub proof fn law_checkpoint_holds_the_base<C: RecordCodec, W>(
    server: EthPirServer<C>,
    write: W,
    result: Result<KeywordCheckpoint, EthPirError>,
) where W: FnOnce(Vec<u8>) -> (Vec<u8>, Result<(), WireError>)
    requires
        call_ensures(EthPirServer::<C>::checkpoint::<W>, (&server, write), result),
    ensures
        exists|buffer: Vec<u8>, written: (Vec<u8>, Result<(), WireError>)|
            buffer@.len() == 0 && #[trigger] call_ensures(write, (buffer,), written)
                && match written.1 {
                Err(w) => result matches Err(e) && client_laws::says(e, w),
                Ok(()) => {
                    &&& result matches Ok(checkpoint)
                    &&& checkpoint.directory == written.0
                    &&& checkpoint.version == server@.directory.version
                    &&& checkpoint.keys@.len() == server@.directory.mphf_len
                    &&& forall|s: int|
                        0 <= s < checkpoint.keys@.len() ==> #[trigger] checkpoint.keys@[s]
                            == record::address_in(server@.records[s])
                },
            },
{
    let blob = choose|blob: Result<Vec<u8>, WireError>| #[trigger]
        keyword::blob_gives(write, blob) && match blob {
            Err(e) => result == Err::<KeywordCheckpoint, _>(
                EthPirError::Io { kind: e.kind, message: e.message },
            ),
            Ok(directory) => {
                &&& result matches Ok(checkpoint)
                &&& checkpoint.directory == directory
                &&& checkpoint.version == server@.directory.version
                &&& checkpoint.keys@.len() == server@.directory.mphf_len
                &&& forall|s: int|
                    0 <= s < checkpoint.keys@.len() ==> #[trigger] checkpoint.keys@[s]
                        == record::address_in(server@.records[s])
            },
        };
    keyword::law_blob_is_what_was_written(write, blob);
}

} // verus!
