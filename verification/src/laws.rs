//! What holds of a lookup from end to end: client, wire and server.

use vstd::prelude::*;

use crate::client;
use crate::client::LookupState;
use crate::error::{EthPirError, KeywordError, PirError};
use crate::record;
use crate::record::{Address, Record, RecordCodec};
use crate::server::laws;
use crate::server::records;
use crate::server::report::{Duration, InitTimings, ServingTimings};
use crate::server::service;
use crate::server::ServerView;
use crate::shape::{Config, DatabaseLayout};

verus! {

/// Looking an address up in a server that was just built gives the value that the
/// server was built with, where it holds the address, and "not in the set" where it
/// does not; never the value of another.
///
/// Of what stands outside it is asked that the directory has a slot of its own for
/// each address; that the client's directory names the same slots, and some slot of
/// the server for any other address; that the PIR layer decodes the answer to a
/// query for a slot into the record that is served there; and that the codec gives
/// back every value that it was given.
pub proof fn law_lookup_finds_exactly_what_is_held<
    C: RecordCodec,
    W,
    D,
    B,
    X,
    S,
    Clock,
    Q,
    K,
    G,
    A,
    I,
    F,
    N,
    E,
>(
    config: Config,
    layout: DatabaseLayout,
    entries: Seq<(Address, C::Value)>,
    world: W,
    build_directory: B,
    index_all: X,
    build_server: S,
    clock: Clock,
    server: ServerView,
    directory: D,
    left: W,
    timings: InitTimings,
    addr: Address,
    index: I,
    ask: F,
    query: Q,
    lookup: LookupState<K>,
    serving: &G,
    answer: N,
    response: A,
    decode: E,
    outcome: Result<C::Value, EthPirError>,
) where
    B: FnOnce(W, Config, DatabaseLayout, &Vec<Address>, u64) -> (W, Result<D, KeywordError>),
    X: FnOnce(&D, &Vec<Address>) -> Vec<usize>,
    S: FnOnce(W, Config, DatabaseLayout, &Vec<Record>) -> (W, Result<ServingTimings, EthPirError>),
    Clock: Fn(W) -> (W, Duration),
    I: FnOnce(&Address) -> usize,
    F: FnOnce(usize) -> Result<(Q, K), PirError>,
    N: FnOnce(&G, &Q) -> Option<Result<A, PirError>>,
    E: FnOnce(&A, &K) -> Result<Record, PirError>,

    requires
        service::init_gives::<C, W, D, B, X, S, Clock>(
            config,
            layout,
            entries,
            world,
            build_directory,
            index_all,
            build_server,
            clock,
            Ok((server, directory, left, timings)),
        ),
        client::query_gives(addr, index, ask, Ok((query, lookup))),
        call_ensures(answer, (serving, &query), Some(Ok(response))),
        client::decrypt_gives::<C, A, K, E>(&response, lookup, decode, outcome),
        forall|keys: Vec<Address>, slots: Vec<usize>|
            keys@ == records::addresses_of(entries) && #[trigger] call_ensures(
                index_all,
                (&directory, &keys),
                slots,
            ) ==> records::one_slot_each(slots@, entries.len()) && named_alike(
                index,
                entries,
                slots@,
            ),
        forall|a: Address, slot: usize| #[trigger]
            call_ensures(index, (&a,), slot) ==> slot < entries.len(),
        forall|slot: usize, q: Q, state: K, a: A, decoded: Result<Record, PirError>|
            #![trigger call_ensures(ask, (slot,), Ok((q, state))), call_ensures(
                answer,
                (serving, &q),
                Some(Ok(a)),
            ), call_ensures(decode, (&a, &state), decoded)]
            call_ensures(ask, (slot,), Ok((q, state))) && call_ensures(
                answer,
                (serving, &q),
                Some(Ok(a)),
            ) && call_ensures(decode, (&a, &state), decoded) && slot < server.served.len()
                ==> decoded == Ok::<_, PirError>(server.served[slot as int]),
        forall|i: int|
            0 <= i < entries.len() ==> C::decoded(C::encoded((#[trigger] entries[i]).1))
                == entries[i].1,
    ensures
        forall|i: int|
            0 <= i < entries.len() && (#[trigger] entries[i]).0 == addr ==> outcome == Ok::<
                C::Value,
                EthPirError,
            >(entries[i].1),
        (forall|i: int| 0 <= i < entries.len() ==> (#[trigger] entries[i]).0 != addr) ==> outcome
            == Err::<C::Value, _>(EthPirError::NotInSet),
{
    let built = laws::built_by::<C, W, D, B, X, S, Clock>(
        config,
        layout,
        entries,
        world,
        build_directory,
        index_all,
        build_server,
        clock,
        server,
        directory,
        left,
        timings,
    );
    let slots = built.4@;
    let served = server.served;
    let n = entries.len();
    records::law_scatter_places_every_record::<C>(entries, slots);
    let placements = records::placements_for::<C>(entries, slots);
    assert forall|i: int| 0 <= i < placements.len() implies (#[trigger] placements[i]).0 < n by {
        assert(slots[i] < n);
    }
    records::lemma_scattered_len(records::vacant_records(n), placements);
    let (slot, asked) = choose|slot: usize, asked: Result<(Q, K), PirError>|
        #![trigger call_ensures(index, (&addr,), slot), call_ensures(ask, (slot,), asked)]
        {
            &&& call_ensures(index, (&addr,), slot)
            &&& call_ensures(ask, (slot,), asked)
            &&& match asked {
                Err(e) => false,
                Ok((q, state)) => q == query && lookup.addr() == addr && lookup.state() == state,
            }
        };
    assert(asked == Ok::<(Q, K), PirError>((query, lookup.state())));
    assert(outcome == record::verified::<C>(served[slot as int], addr));
    let j = records::lemma_no_slot_left(slots, n, slot as int);
    assert(served[slots[j] as int] == record::record_for::<C>(entries[j].0, entries[j].1));
    record::lemma_record_for::<C>(entries[j].0, entries[j].1);
    assert forall|i: int|
        0 <= i < entries.len() && (#[trigger] entries[i]).0 == addr implies outcome == Ok::<
        C::Value,
        EthPirError,
    >(entries[i].1) by {
        assert(slot == slots[i]);
        assert(served[slots[i] as int] == record::record_for::<C>(entries[i].0, entries[i].1));
        record::lemma_record_for::<C>(entries[i].0, entries[i].1);
    }
}

/// A client whose directory is out of date is never given the value of another
/// address: whatever slot its directory names, a lookup ends with "not in the set",
/// or with the current value of a served record that carries the address.
///
/// Of the PIR layer it is asked that it decodes the answer to a query for a slot into
/// the record that the database holds there.
pub proof fn law_stale_lookup_gives_own_value_or_none<C: RecordCodec, Q, K, G, A, I, F, N, E>(
    served: Seq<Record>,
    addr: Address,
    index: I,
    ask: F,
    query: Q,
    lookup: LookupState<K>,
    serving: &G,
    answer: N,
    response: A,
    decode: E,
    outcome: Result<C::Value, EthPirError>,
) where
    I: FnOnce(&Address) -> usize,
    F: FnOnce(usize) -> Result<(Q, K), PirError>,
    N: FnOnce(&G, &Q) -> Option<Result<A, PirError>>,
    E: FnOnce(&A, &K) -> Result<Record, PirError>,

    requires
        addr != record::vacant_address(),
        client::query_gives(addr, index, ask, Ok((query, lookup))),
        call_ensures(answer, (serving, &query), Some(Ok(response))),
        client::decrypt_gives::<C, A, K, E>(&response, lookup, decode, outcome),
        forall|slot: usize, q: Q, state: K, a: A, decoded: Result<Record, PirError>|
            #![trigger call_ensures(ask, (slot,), Ok((q, state))), call_ensures(
                answer,
                (serving, &q),
                Some(Ok(a)),
            ), call_ensures(decode, (&a, &state), decoded)]
            call_ensures(ask, (slot,), Ok((q, state))) && call_ensures(
                answer,
                (serving, &q),
                Some(Ok(a)),
            ) && call_ensures(decode, (&a, &state), decoded) ==> decoded == Ok::<_, PirError>(
                laws::database_record(served, slot as int),
            ),
    ensures
        outcome == Err::<C::Value, _>(EthPirError::NotInSet) || exists|s: int|
            0 <= s < served.len() && record::address_in(#[trigger] served[s]) == addr && outcome
                == Ok::<_, EthPirError>(record::value_in::<C>(served[s])),
{
    let (slot, asked) = choose|slot: usize, asked: Result<(Q, K), PirError>|
        #![trigger call_ensures(index, (&addr,), slot), call_ensures(ask, (slot,), asked)]
        {
            &&& call_ensures(index, (&addr,), slot)
            &&& call_ensures(ask, (slot,), asked)
            &&& match asked {
                Err(e) => false,
                Ok((q, state)) => q == query && lookup.addr() == addr && lookup.state() == state,
            }
        };
    assert(asked == Ok::<(Q, K), PirError>((query, lookup.state())));
    record::lemma_vacant();
    assert(outcome == record::verified::<C>(laws::database_record(served, slot as int), addr));
    if 0 <= slot < served.len() && record::address_in(served[slot as int]) == addr {
        assert(outcome == Ok::<_, EthPirError>(record::value_in::<C>(served[slot as int])));
    }
}

/// Whether `index` names for each entry the slot that `slots` has for it.
pub open spec fn named_alike<V, I: FnOnce(&Address) -> usize>(
    index: I,
    entries: Seq<(Address, V)>,
    slots: Seq<usize>,
) -> bool {
    forall|i: int, slot: usize|
        0 <= i < entries.len() && #[trigger] call_ensures(index, (&entries[i].0,), slot) ==> slot
            == slots[i]
}

} // verus!
