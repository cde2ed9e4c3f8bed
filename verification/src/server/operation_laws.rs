//! What each operation of a server does, stated over the calls that it is given, the
//! server before and after, and the values that it hands back.

use vstd::prelude::*;

use crate::address_map::AddressMap;
use crate::error::{EthPirError, KeywordError, PirError, WireError};
use crate::record;
use crate::record::{Address, Record, RecordCodec};
use crate::server::keyword::DirectoryState;
use crate::server::laws;
use crate::server::rebuild;
use crate::server::rebuild_laws;
use crate::server::records;
use crate::server::report::{
    Duration, KeywordRebuildTimings, MemoryReport, RefreshTimings, ServingMemory,
};
use crate::server::service;
use crate::server::EthPirServer;

verus! {

/// An update that is taken writes the record of the address into one slot and leaves
/// every other alone: the slot that the directory names, where that holds the address
/// or the directory knows it already, and else a new one at the end. It is counted
/// once, and nothing that is served changes. An update that is refused changes nothing,
/// and is refused with what the directory said.
pub proof fn law_update_writes_one_record<C: RecordCodec, D, I, P>(
    server: &mut EthPirServer<C>,
    directory: D,
    addr: Address,
    value: C::Value,
    index: I,
    push: P,
    record: Record,
    result: (D, Result<(), EthPirError>),
) where
    I: FnOnce(&D, &Address) -> usize,
    P: FnOnce(D, &Address) -> (D, Result<usize, KeywordError>),

    requires
        record@ == addr@ + C::encoded(value)@,
        call_ensures(
            EthPirServer::<C>::update::<D, I, P>,
            (server, directory, addr, value, index, push),
            result,
        ),
    ensures
        final(server)@.served == old(server)@.served,
        final(server)@.directory.version == old(server)@.directory.version,
        final(server)@.directory.mphf_len == old(server)@.directory.mphf_len,
        final(server)@.pending == old(server)@.pending + if result.1 is Ok {
            1nat
        } else {
            0
        },
        exists|slot: usize| #[trigger]
            call_ensures(index, (&directory, &addr), slot) && if slot < old(server)@.records.len()
                && record::address_in(old(server)@.records[slot as int]) == addr {
                &&& result.0 == directory
                &&& result.1 is Ok
                &&& final(server)@.records == old(server)@.records.update(slot as int, record)
                &&& final(server)@.directory == old(server)@.directory
            } else {
                exists|pushed: (D, Result<usize, KeywordError>)| #[trigger]
                    call_ensures(push, (directory, &addr), pushed) && result.0 == pushed.0
                        && match pushed.1 {
                        Ok(_) => {
                            &&& result.1 is Ok
                            &&& final(server)@.records == old(server)@.records.push(record)
                        },
                        Err(k) => if k.duplicate == Some(addr) && slot
                            < old(server)@.records.len() {
                            &&& result.1 is Ok
                            &&& final(server)@.records == old(server)@.records.update(
                                slot as int,
                                record,
                            )
                            &&& final(server)@.directory == old(server)@.directory
                        } else {
                            &&& result.1 matches Err(e) && e == EthPirError::Keyword(k)
                            &&& final(server)@ == old(server)@
                        },
                    }
            },
{
    record::lemma_record_for::<C>(addr, value);
    crate::bytes::lemma_same_bytes(record, record::record_for::<C>(addr, value));
    let slot = choose|slot: usize| #[trigger]
        call_ensures(index, (&directory, &addr), slot) && if slot < old(server)@.records.len()
            && record::address_in(old(server)@.records[slot as int]) == addr {
            &&& result == (directory, Ok::<(), EthPirError>(()))
            &&& final(server)@ == old(server)@.written(
                slot as int,
                record::record_for::<C>(addr, value),
            ).counted()
        } else {
            exists|pushed: (D, Result<usize, KeywordError>)| #[trigger]
                call_ensures(push, (directory, &addr), pushed) && {
                    let (server_after, outcome) = service::inserted(
                        old(server)@,
                        slot,
                        addr,
                        record::record_for::<C>(addr, value),
                        pushed.1,
                    );
                    &&& result == (pushed.0, outcome)
                    &&& final(server)@ == service::settled(server_after, outcome)
                }
        };
    assert(call_ensures(index, (&directory, &addr), slot));
}

/// The directory's answer to a push decides what becomes of a new address: taken, its
/// record gets a slot at the end; known already, it gets the slot that is named for it,
/// where there is one; refused for another reason, nothing changes.
pub proof fn law_push_decides_what_is_stored<C: RecordCodec>(
    server: &mut EthPirServer<C>,
    slot: usize,
    addr: Address,
    value: C::Value,
    pushed: Result<usize, KeywordError>,
    record: Record,
    result: Result<(), EthPirError>,
)
    requires
        record@ == addr@ + C::encoded(value)@,
        old(server)@.directory.delta_len < usize::MAX,
        call_ensures(
            EthPirServer::<C>::insert_or_reclaim,
            (server, slot, addr, value, pushed),
            result,
        ),
    ensures
        final(server)@.served == old(server)@.served,
        final(server)@.pending == old(server)@.pending,
        match pushed {
            Ok(_) => {
                &&& result is Ok
                &&& final(server)@.records.len() == old(server)@.records.len() + 1
                &&& final(server)@.records.last() == record
                &&& forall|s: int|
                    0 <= s < old(server)@.records.len() ==> #[trigger] final(server)@.records[s]
                        == old(server)@.records[s]
                &&& final(server)@.directory == (DirectoryState {
                    delta_len: (old(server)@.directory.delta_len + 1) as usize,
                    ..old(server)@.directory
                })
            },
            Err(k) => {
                &&& final(server)@.directory == old(server)@.directory
                &&& if k.duplicate == Some(addr) && slot < old(server)@.records.len() {
                    result is Ok && final(server)@.records == old(server)@.records.update(
                        slot as int,
                        record,
                    )
                } else {
                    (result matches Err(e) && e == EthPirError::Keyword(k))
                        && final(server)@.records == old(server)@.records
                }
            },
        },
{
    record::lemma_record_for::<C>(addr, value);
    crate::bytes::lemma_same_bytes(record, record::record_for::<C>(addr, value));
}

/// A server tells how many slots it addresses, how many updates are pending and which
/// records it holds, and reports the memory that each of its parts takes.
pub proof fn law_server_tells_what_it_holds<C: RecordCodec>(
    server: EthPirServer<C>,
    len: usize,
    empty: bool,
    pending: usize,
    held: &Vec<Record>,
    serving: ServingMemory,
    staging_database: usize,
    directory_bytes: usize,
    memory: MemoryReport,
)
    ensures
        call_ensures(EthPirServer::<C>::len, (&server,), len) ==> len == server@.records.len(),
        call_ensures(EthPirServer::<C>::is_empty, (&server,), empty) ==> (empty <==> server@.directory.mphf_len
            + server@.directory.delta_len == 0),
        call_ensures(EthPirServer::<C>::pending, (&server,), pending) ==> pending
            == server@.pending,
        call_ensures(EthPirServer::<C>::records, (&server,), held) ==> held@ == server@.records,
        call_ensures(
            EthPirServer::<C>::memory_report,
            (&server, serving, staging_database, directory_bytes),
            memory,
        ) && server@.records.len() * 64 <= usize::MAX && directory_bytes
            + server@.directory.delta_len * 44 <= usize::MAX ==> {
            &&& memory.serving_database == serving.database
            &&& memory.staging_database == staging_database
            &&& memory.precomputation == serving.precomputation
            &&& memory.online_scratch_pool == serving.online_scratch_pool
            &&& memory.records == server@.records.len() * 64
            &&& memory.keyword_directory == directory_bytes + server@.directory.delta_len * 44
        },
{
}

/// A valid server may be asked for what it holds and be updated, with any address.
pub proof fn law_server_takes_any_update<C: RecordCodec, D, I, P>(
    server: &mut EthPirServer<C>,
    directory: D,
    addr: Address,
    value: C::Value,
    slot: usize,
    pushed: Result<usize, KeywordError>,
    index: I,
    push: P,
) where
    I: FnOnce(&D, &Address) -> usize,
    P: FnOnce(D, &Address) -> (D, Result<usize, KeywordError>),

    requires
        old(server)@.wf(),
        old(server)@.pending < usize::MAX,
        call_requires(index, (&directory, &addr)),
        call_requires(push, (directory, &addr)),
    ensures
        call_requires(
            EthPirServer::<C>::update::<D, I, P>,
            (server, directory, addr, value, index, push),
        ),
        call_requires(
            EthPirServer::<C>::insert_or_reclaim,
            (server, slot, addr, value, pushed),
        ),
{
}

/// A valid server may be asked for what it holds, for the memory that it takes as far as
/// that can be counted, and for a checkpoint wherever its directory may be written.
pub proof fn law_valid_server_may_be_asked<C: RecordCodec, W>(
    server: EthPirServer<C>,
    serving: ServingMemory,
    staging_database: usize,
    directory_bytes: usize,
    write: W,
) where W: FnOnce(Vec<u8>) -> (Vec<u8>, Result<(), WireError>)
    requires
        server@.wf(),
        server@.records.len() * 64 <= usize::MAX,
        directory_bytes + server@.directory.delta_len * 44 <= usize::MAX,
        forall|buffer: Vec<u8>| #[trigger] call_requires(write, (buffer,)),
    ensures
        call_requires(EthPirServer::<C>::len, (&server,)),
        call_requires(EthPirServer::<C>::is_empty, (&server,)),
        call_requires(EthPirServer::<C>::pending, (&server,)),
        call_requires(EthPirServer::<C>::records, (&server,)),
        call_requires(EthPirServer::<C>::keyword, (&server,)),
        call_requires(
            EthPirServer::<C>::memory_report,
            (&server, serving, staging_database, directory_bytes),
        ),
        call_requires(EthPirServer::<C>::checkpoint::<W>, (&server, write)),
{
}

/// Where no update is pending a database rebuild does nothing. Otherwise, where it
/// succeeds, the served database is that of the server's records, whatever their
/// number, and nothing is pending any more; where it fails, what is served and the
/// server are as they were, and one of the steps failed with what is said.
pub proof fn law_rebuilt_database_holds_the_records<C: RecordCodec, W, Q, E, P, I, Clock>(
    staging: spec_fn(W) -> Seq<Record>,
    database: spec_fn(W) -> Seq<Record>,
    made_for: spec_fn(Q) -> Seq<Record>,
    server: &mut EthPirServer<C>,
    world: W,
    encode: E,
    precompute: P,
    install: I,
    clock: Clock,
    result: (W, Result<Option<RefreshTimings>, EthPirError>),
) where
    E: FnOnce(W, &Vec<Record>) -> (W, Result<(), PirError>),
    P: FnOnce(W) -> (W, Option<Q>),
    I: FnOnce(W, Q) -> (W, bool),
    Clock: Fn(W) -> (W, Duration),

    requires
        rebuild_laws::acts_on_databases(
            staging,
            database,
            made_for,
            encode,
            precompute,
            install,
            clock,
        ),
        call_ensures(
            EthPirServer::<C>::try_rebuild_database::<W, Q, E, P, I, Clock>,
            (server, world, encode, precompute, install, clock),
            result,
        ),
    ensures
        final(server)@.records == old(server)@.records,
        final(server)@.directory == old(server)@.directory,
        match result.1 {
            Ok(None) => {
                &&& old(server)@.pending == 0
                &&& result.0 == world
                &&& final(server)@ == old(server)@
            },
            Ok(Some(_)) => {
                &&& old(server)@.pending > 0
                &&& database(result.0) == old(server)@.records
                &&& final(server)@.served == old(server)@.records
                &&& final(server)@.pending == 0
            },
            Err(e) => {
                &&& old(server)@.pending > 0
                &&& database(result.0) == database(world)
                &&& final(server)@ == old(server)@
                &&& step_failed(encode, precompute, install, e)
            },
        },
{
    match result.1 {
        Ok(Some(timings)) => {
            rebuild_laws::law_rebuild_serves_the_records(
                staging,
                database,
                made_for,
                old(server)@.records,
                world,
                encode,
                precompute,
                install,
                clock,
                result.0,
                timings,
            );
        },
        Ok(None) => {},
        Err(e) => {
            rebuild_laws::law_refresh_fails_only_where_a_step_fails(
                old(server)@.records,
                world,
                encode,
                precompute,
                install,
                clock,
                result.0,
                e,
            );
            rebuild_laws::law_failed_refresh_keeps_serving(
                staging,
                database,
                made_for,
                old(server)@.records,
                world,
                encode,
                precompute,
                install,
                clock,
                result.0,
                e,
            );
        },
    }
}

/// Whether one of the steps of a database rebuild can have failed with `e`.
pub open spec fn step_failed<W, Q, E, P, I>(
    encode: E,
    precompute: P,
    install: I,
    e: EthPirError,
) -> bool where
    E: FnOnce(W, &Vec<Record>) -> (W, Result<(), PirError>),
    P: FnOnce(W) -> (W, Option<Q>),
    I: FnOnce(W, Q) -> (W, bool),
 {
    ||| exists|w: W, data: Vec<Record>, encoded: (W, Result<(), PirError>)|
        #![trigger call_ensures(encode, (w, &data), encoded)]
        call_ensures(encode, (w, &data), encoded) && (encoded.1 matches Err(p) && e
            == EthPirError::Pir(p))
    ||| e == EthPirError::ServerPoisoned && exists|w: W, made: (W, Option<Q>)| #[trigger]
        call_ensures(precompute, (w,), made) && made.1 is None
    ||| e == EthPirError::ServerPoisoned && exists|w: W, q: Q, placed: (W, bool)| #[trigger]
        call_ensures(install, (w, q), placed) && !placed.1
}

/// A keyword rebuild from a map that succeeds has handed the map's addresses to the
/// directory, in their order, and holds and serves each at the slot that the new
/// directory names for it, whatever their number. One that fails leaves the server and
/// what is served as they were, and one of the calls failed with what is said.
pub proof fn law_keyword_rebuild_follows_the_map<C: RecordCodec, W, D, Q, R, X, E, P, I, Clock>(
    staging: spec_fn(W) -> Seq<Record>,
    database: spec_fn(W) -> Seq<Record>,
    made_for: spec_fn(Q) -> Seq<Record>,
    server: &mut EthPirServer<C>,
    world: W,
    map: AddressMap<C::Value>,
    rebuild: R,
    index_all: X,
    encode: E,
    precompute: P,
    install: I,
    clock: Clock,
    result: (W, Result<(KeywordRebuildTimings, D), EthPirError>),
) where
    R: FnOnce(W, &Vec<Address>) -> (W, Result<(u64, D), KeywordError>),
    X: FnOnce(&D, &Vec<Address>) -> Vec<usize>,
    E: FnOnce(W, &Vec<Record>) -> (W, Result<(), PirError>),
    P: FnOnce(W) -> (W, Option<Q>),
    I: FnOnce(W, Q) -> (W, bool),
    Clock: Fn(W) -> (W, Duration),

    requires
        map.wf(),
        rebuild_laws::acts_on_databases(
            staging,
            database,
            made_for,
            encode,
            precompute,
            install,
            clock,
        ),
        forall|w: W, keys: Vec<Address>, rebuilt: (W, Result<(u64, D), KeywordError>)| #[trigger]
            call_ensures(rebuild, (w, &keys), rebuilt) ==> database(rebuilt.0) == database(w),
        forall|directory: D, keys: Vec<Address>, slots: Vec<usize>| #[trigger]
            call_ensures(index_all, (&directory, &keys), slots) ==> records::one_slot_each(
                slots@,
                keys@.len(),
            ),
        call_ensures(
            EthPirServer::<C>::rebuild_keyword_index_from::<W, D, Q, R, X, E, P, I, Clock>,
            (server, world, &map, rebuild, index_all, encode, precompute, install, clock),
            result,
        ),
    ensures
        match result.1 {
            Ok((_, directory)) => {
                &&& database(result.0) == final(server)@.records
                &&& final(server)@.served == final(server)@.records
                &&& final(server)@.records.len() == map.entries().len()
                &&& final(server)@.pending == 0
                &&& final(server)@.directory.mphf_len == map.entries().len()
                &&& final(server)@.directory.delta_len == 0
                &&& exists|keys: Vec<Address>, slots: Vec<usize>|
                    keys@ == records::addresses_of(map.entries()) && #[trigger] call_ensures(
                        index_all,
                        (&directory, &keys),
                        slots,
                    ) && laws::all_found::<C>(final(server)@.served, map.entries(), slots@)
                &&& exists|w: W, keys: Vec<Address>, rebuilt: (W, Result<(u64, D), KeywordError>)|
                    #![trigger call_ensures(rebuild, (w, &keys), rebuilt)]
                    {
                        &&& call_ensures(rebuild, (w, &keys), rebuilt)
                        &&& keys@.len() == map.entries().len()
                        &&& forall|i: int|
                            0 <= i < keys@.len() ==> #[trigger] keys@[i] == map.entries()[i].0
                        &&& rebuilt.1 == Ok::<(u64, D), KeywordError>(
                            (final(server)@.directory.version, directory),
                        )
                    }
            },
            Err(e) => {
                &&& final(server)@ == old(server)@
                &&& database(result.0) == database(world)
                &&& {
                    ||| exists|
                        w: W,
                        keys: Vec<Address>,
                        rebuilt: (W, Result<(u64, D), KeywordError>),
                    |
                        #![trigger call_ensures(rebuild, (w, &keys), rebuilt)]
                        call_ensures(rebuild, (w, &keys), rebuilt) && (rebuilt.1 matches Err(k)
                            && e == EthPirError::Keyword(k))
                    ||| step_failed(encode, precompute, install, e)
                }
            },
        },
{
    let entries = map.entries();
    match result.1 {
        Ok((timings, directory)) => {
            assert(final(server)@.directory.mphf_len == entries.len());
            rebuild_laws::law_keyword_rebuild_serves_the_records::<C, W, D, Q, R, X, E, P, I, Clock>(
                staging,
                database,
                made_for,
                old(server)@,
                entries,
                world,
                rebuild,
                index_all,
                encode,
                precompute,
                install,
                clock,
                result.0,
                timings,
                directory,
                final(server)@,
            );
            laws::law_keyword_rebuild_serves_every_address::<C, W, D, Q, R, X, E, P, I, Clock>(
                old(server)@,
                entries,
                world,
                rebuild,
                index_all,
                encode,
                precompute,
                install,
                clock,
                result.0,
                timings,
                directory,
                final(server)@,
                old(server)@.directory,
            );
        },
        Err(e) => {
            rebuild_laws::law_failed_keyword_rebuild_changes_nothing::<C, W, D, Q, R, X, E, P, I, Clock>(
                old(server)@,
                entries,
                world,
                rebuild,
                index_all,
                encode,
                precompute,
                install,
                clock,
                result.0,
                e,
                final(server)@,
            );
            rebuild_laws::law_failed_keyword_rebuild_keeps_serving::<C, W, D, Q, R, X, E, P, I, Clock>(
                staging,
                database,
                made_for,
                old(server)@,
                entries,
                world,
                rebuild,
                index_all,
                encode,
                precompute,
                install,
                clock,
                result.0,
                e,
                final(server)@,
            );
        },
    }
}

/// A rebuild may be asked for wherever the calls that are handed over may be made and
/// a directory names a slot within reach for each address, whatever the number of
/// records.
pub proof fn law_server_may_be_rebuilt<C: RecordCodec, W, D, Q, R, X, E, P, I, Clock>(
    server: &mut EthPirServer<C>,
    world: W,
    map: AddressMap<C::Value>,
    rebuild: R,
    index_all: X,
    encode: E,
    precompute: P,
    install: I,
    clock: Clock,
) where
    R: FnOnce(W, &Vec<Address>) -> (W, Result<(u64, D), KeywordError>),
    X: FnOnce(&D, &Vec<Address>) -> Vec<usize>,
    E: FnOnce(W, &Vec<Record>) -> (W, Result<(), PirError>),
    P: FnOnce(W) -> (W, Option<Q>),
    I: FnOnce(W, Q) -> (W, bool),
    Clock: Fn(W) -> (W, Duration),

    requires
        old(server)@.wf(),
        map.wf(),
        forall|w: W, keys: Vec<Address>| #[trigger] call_requires(rebuild, (w, &keys)),
        forall|directory: D, keys: Vec<Address>| #[trigger]
            call_requires(index_all, (&directory, &keys)),
        forall|directory: D, keys: Vec<Address>, slots: Vec<usize>| #[trigger]
            call_ensures(index_all, (&directory, &keys), slots) ==> slots@.len() == keys@.len()
                && forall|i: int| 0 <= i < slots@.len() ==> #[trigger] slots@[i] < keys@.len(),
        forall|w: W, data: Vec<Record>| #[trigger] call_requires(encode, (w, &data)),
        forall|w: W| #[trigger] call_requires(precompute, (w,)),
        forall|w: W, q: Q| #[trigger] call_requires(install, (w, q)),
        forall|w: W| #[trigger] call_requires(clock, (w,)),
    ensures
        call_requires(
            EthPirServer::<C>::try_rebuild_database::<W, Q, E, P, I, Clock>,
            (server, world, encode, precompute, install, clock),
        ),
        call_requires(
            EthPirServer::<C>::rebuild_keyword_index_from::<W, D, Q, R, X, E, P, I, Clock>,
            (server, world, &map, rebuild, index_all, encode, precompute, install, clock),
        ),
        call_requires(
            EthPirServer::<C>::rebuild_keyword_index::<W, D, Q, R, X, E, P, I, Clock>,
            (server, world, rebuild, index_all, encode, precompute, install, clock),
        ),
{
    assert forall|laid: Seq<Record>| #[trigger]
        rebuild::refresh_callable(laid, encode, precompute, install, clock) by {}
    assert(rebuild::refresh_callable(old(server)@.records, encode, precompute, install, clock));
    assert forall|any: AddressMap<C::Value>| #[trigger]
        any.wf() implies rebuild::keyword_rebuild_callable::<C, W, D, Q, R, X, E, P, I, Clock>(
        any.entries(),
        rebuild,
        index_all,
        encode,
        precompute,
        install,
        clock,
    ) by {}
}

} // verus!
