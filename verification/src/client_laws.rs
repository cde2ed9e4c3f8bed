//! What each operation of a client does, stated over the calls that it is given and
//! the values that it hands back.

use vstd::prelude::*;

use std::io::ErrorKind;

use crate::client;
use crate::client::{EthPirClient, LookupState, Session};
use crate::error::{EthIoError, EthPirError, PirError, WireError};
use crate::record::{Address, Record, RecordCodec};
use crate::server::keyword::DirectoryState;
use crate::shape::{Collapse, Config, DatabaseLayout};

verus! {

/// Whether `e` is a wire failure with the kind and the message of `w`.
pub open spec fn says(e: EthPirError, w: WireError) -> bool {
    e matches EthPirError::Io { kind, message } && kind == w.kind && message == w.message
}

/// The configuration that is used where none is asked for.
pub open spec fn usual_config() -> Config {
    Config { collapse: Collapse::Recursion { gamma0: 32, gamma1: 1024, gamma2: 32 } }
}

/// The layout that is used where none is asked for.
pub open spec fn usual_layout() -> DatabaseLayout {
    DatabaseLayout { rows: 16384, cols: 65536 }
}

/// The usual shape is the one that a caller gets who asks for none.
pub proof fn law_usual_shape_is_the_default(shape: (Config, DatabaseLayout))
    ensures
        call_ensures(crate::shape::default_shape, (), shape) ==> shape == (
            usual_config(),
            usual_layout(),
        ),
{
}

/// A client that was set up is in exactly the state that reading the blob gave, with
/// the PIR client that was made for the shape asked for. Setting one up fails only
/// where the blob could not be read or no PIR client was made, with what was said of it.
pub proof fn law_client_starts_as_its_blob_says<C: RecordCodec, D, K, R, M>(
    config: Config,
    layout: DatabaseLayout,
    blob: &[u8],
    read: R,
    make: M,
    tried: Result<Session<C, D, K>, EthPirError>,
    plain: Result<Session<C, D, K>, EthIoError>,
) where
    R: FnOnce(&[u8]) -> Result<(D, DirectoryState), WireError>,
    M: FnOnce(Config, DatabaseLayout) -> Result<K, PirError>,

    ensures
        call_ensures(
            EthPirClient::<C>::try_with_shape::<D, K, R, M>,
            (config, layout, blob, read, make),
            tried,
        ) ==> match tried {
            Ok(session) => {
                &&& call_ensures(
                    read,
                    (blob,),
                    Ok::<_, WireError>((session.directory, session.client@)),
                )
                &&& call_ensures(make, (config, layout), Ok::<K, PirError>(session.pir))
            },
            Err(e) => {
                ||| exists|w: WireError| #[trigger]
                    call_ensures(read, (blob,), Err::<(D, DirectoryState), WireError>(w)) && says(
                        e,
                        w,
                    )
                ||| exists|p: PirError| #[trigger]
                    call_ensures(make, (config, layout), Err::<K, PirError>(p)) && e
                        == EthPirError::Pir(p)
            },
        },
        call_ensures(
            EthPirClient::<C>::with_shape::<D, K, R, M>,
            (config, layout, blob, read, make),
            plain,
        ) ==> match plain {
            Ok(session) => {
                &&& call_ensures(
                    read,
                    (blob,),
                    Ok::<_, WireError>((session.directory, session.client@)),
                )
                &&& call_ensures(make, (config, layout), Ok::<K, PirError>(session.pir))
            },
            Err(io) => {
                ||| exists|w: WireError| #[trigger]
                    call_ensures(read, (blob,), Err::<(D, DirectoryState), WireError>(w)) && says(
                        io.error,
                        w,
                    ) && io.kind == w.kind
                ||| exists|p: PirError| #[trigger]
                    call_ensures(make, (config, layout), Err::<K, PirError>(p)) && io.error
                        == EthPirError::Pir(p) && io.kind == ErrorKind::Other
            },
        },
{
}

/// Where no shape is asked for, a client is set up as one that asks for the usual one.
pub proof fn law_client_starts_with_the_usual_shape<C: RecordCodec, D, K, R, M>(
    blob: &[u8],
    read: R,
    make: M,
    tried: Result<Session<C, D, K>, EthPirError>,
    plain: Result<Session<C, D, K>, EthIoError>,
) where
    R: FnOnce(&[u8]) -> Result<(D, DirectoryState), WireError>,
    M: FnOnce(Config, DatabaseLayout) -> Result<K, PirError>,

    ensures
        call_ensures(EthPirClient::<C>::try_new::<D, K, R, M>, (blob, read, make), tried)
            ==> match tried {
            Ok(session) => {
                &&& call_ensures(
                    read,
                    (blob,),
                    Ok::<_, WireError>((session.directory, session.client@)),
                )
                &&& call_ensures(make, (usual_config(), usual_layout()), Ok::<K, PirError>(session.pir))
            },
            Err(e) => {
                ||| exists|w: WireError| #[trigger]
                    call_ensures(read, (blob,), Err::<(D, DirectoryState), WireError>(w)) && says(
                        e,
                        w,
                    )
                ||| exists|p: PirError| #[trigger]
                    call_ensures(make, (usual_config(), usual_layout()), Err::<K, PirError>(p)) && e
                        == EthPirError::Pir(p)
            },
        },
        call_ensures(EthPirClient::<C>::new::<D, K, R, M>, (blob, read, make), plain)
            ==> match plain {
            Ok(session) => {
                &&& call_ensures(
                    read,
                    (blob,),
                    Ok::<_, WireError>((session.directory, session.client@)),
                )
                &&& call_ensures(make, (usual_config(), usual_layout()), Ok::<K, PirError>(session.pir))
            },
            Err(io) => {
                ||| exists|w: WireError| #[trigger]
                    call_ensures(read, (blob,), Err::<(D, DirectoryState), WireError>(w)) && says(
                        io.error,
                        w,
                    ) && io.kind == w.kind
                ||| exists|p: PirError| #[trigger]
                    call_ensures(make, (usual_config(), usual_layout()), Err::<K, PirError>(p)) && io.error
                        == EthPirError::Pir(p) && io.kind == ErrorKind::Other
            },
        },
{
    assert(usual_config() == crate::shape::default_config());
    assert(usual_layout() == crate::shape::default_layout());
}

/// A client tells the version and the tail length of the directory that it holds.
pub proof fn law_client_tells_what_it_holds<C: RecordCodec>(
    client: EthPirClient<C>,
    version: u64,
    tail_len: usize,
)
    ensures
        call_ensures(EthPirClient::<C>::version, (&client,), version) ==> version
            == client@.version,
        call_ensures(EthPirClient::<C>::tail_len, (&client,), tail_len) ==> tail_len
            == client@.delta_len,
{
}

/// A client that was brought up to date is in exactly the state that reading the blob
/// gave. Where the blob could not be read the client is as it was, and the failure
/// comes through.
pub proof fn law_resync_takes_what_was_read<C: RecordCodec, D, R>(
    client: &mut EthPirClient<C>,
    blob: &[u8],
    read: R,
    tried: Result<D, EthPirError>,
    plain: Result<D, EthIoError>,
) where R: FnOnce(&[u8]) -> Result<(D, DirectoryState), WireError>
    ensures
        call_ensures(EthPirClient::<C>::try_resync::<D, R>, (client, blob, read), tried)
            ==> match tried {
            Ok(directory) => call_ensures(
                read,
                (blob,),
                Ok::<_, WireError>((directory, final(client)@)),
            ),
            Err(e) => final(client)@ == old(client)@ && exists|w: WireError| #[trigger]
                call_ensures(read, (blob,), Err::<(D, DirectoryState), WireError>(w)) && says(e, w),
        },
        call_ensures(EthPirClient::<C>::resync::<D, R>, (client, blob, read), plain)
            ==> match plain {
            Ok(directory) => call_ensures(
                read,
                (blob,),
                Ok::<_, WireError>((directory, final(client)@)),
            ),
            Err(io) => final(client)@ == old(client)@ && exists|w: WireError| #[trigger]
                call_ensures(read, (blob,), Err::<(D, DirectoryState), WireError>(w)) && says(
                    io.error,
                    w,
                ) && io.kind == w.kind,
        },
{
}

/// After a tail was applied the client holds the state that the directory was left in,
/// whether applying it failed or not, and a failure comes through.
pub proof fn law_client_follows_its_directory<C: RecordCodec, F>(
    client: &mut EthPirClient<C>,
    tail: &[u8],
    apply: F,
    tried: Result<(), EthPirError>,
    plain: Result<(), EthIoError>,
) where F: FnOnce(&[u8]) -> (DirectoryState, Result<(), WireError>)
    ensures
        call_ensures(EthPirClient::<C>::try_apply_tail::<F>, (client, tail, apply), tried)
            ==> exists|left: DirectoryState, outcome: Result<(), WireError>| #[trigger]
            call_ensures(apply, (tail,), (left, outcome)) && final(client)@ == left && (tried is Ok
                <==> outcome is Ok) && (outcome matches Err(w) ==> (tried matches Err(e) && says(
                e,
                w,
            ))),
        call_ensures(EthPirClient::<C>::apply_tail::<F>, (client, tail, apply), plain)
            ==> exists|left: DirectoryState, outcome: Result<(), WireError>| #[trigger]
            call_ensures(apply, (tail,), (left, outcome)) && final(client)@ == left && (plain is Ok
                <==> outcome is Ok) && (outcome matches Err(w) ==> (plain matches Err(io) && says(
                io.error,
                w,
            ) && io.kind == w.kind)),
{
    if call_ensures(EthPirClient::<C>::try_apply_tail::<F>, (client, tail, apply), tried) {
        let applied = choose|applied: (DirectoryState, Result<(), WireError>)| #[trigger]
            call_ensures(apply, (tail,), applied) && final(client)@ == applied.0 && tried
                == match applied.1 {
                Ok(()) => Ok(()),
                Err(e) => Err(EthPirError::Io { kind: e.kind, message: e.message }),
            };
        assert(call_ensures(apply, (tail,), (applied.0, applied.1)));
    }
    if call_ensures(EthPirClient::<C>::apply_tail::<F>, (client, tail, apply), plain) {
        let applied = choose|applied: (DirectoryState, Result<(), WireError>)| #[trigger]
            call_ensures(apply, (tail,), applied) && final(client)@ == applied.0 && plain
                == match applied.1 {
                Ok(()) => Ok(()),
                Err(e) => Err(
                    client::reported(EthPirError::Io { kind: e.kind, message: e.message }),
                ),
            };
        assert(call_ensures(apply, (tail,), (applied.0, applied.1)));
    }
}

/// A query for an address asks for the slot that the directory names for it, and is
/// remembered with that address. It fails only where asking failed.
pub proof fn law_query_asks_for_the_slot_of_its_address<C: RecordCodec, Q, S, I, F>(
    client: EthPirClient<C>,
    addr: Address,
    index: I,
    ask: F,
    named: usize,
    result: Result<(Q, LookupState<S>), EthPirError>,
) where I: FnOnce(&Address) -> usize, F: FnOnce(usize) -> Result<(Q, S), PirError>
    ensures
        call_ensures(EthPirClient::<C>::slot::<I>, (&client, &addr, index), named)
            ==> call_ensures(index, (&addr,), named),
        call_ensures(EthPirClient::<C>::try_query::<Q, S, I, F>, (&client, addr, index, ask), result)
            ==> exists|slot: usize, asked: Result<(Q, S), PirError>|
            #![trigger call_ensures(index, (&addr,), slot), call_ensures(ask, (slot,), asked)]
            {
                &&& call_ensures(index, (&addr,), slot)
                &&& call_ensures(ask, (slot,), asked)
                &&& result is Ok <==> asked is Ok
                &&& result matches Ok((query, lookup)) ==> lookup.addr() == addr && asked == Ok::<
                    _,
                    PirError,
                >((query, lookup.state()))
                &&& result matches Err(e) ==> (asked matches Err(p) && e == EthPirError::Pir(p))
            },
{
}

/// A query in wire form is what writing that query gave, remembered with its address.
pub proof fn law_query_bytes_are_the_written_query<C: RecordCodec, Q, S, I, F, W>(
    client: EthPirClient<C>,
    addr: Address,
    index: I,
    ask: F,
    write: W,
    result: Result<(Vec<u8>, LookupState<S>), EthPirError>,
) where
    I: FnOnce(&Address) -> usize,
    F: FnOnce(usize) -> Result<(Q, S), PirError>,
    W: FnOnce(&Q) -> Result<Vec<u8>, WireError>,

    requires
        call_ensures(
            EthPirClient::<C>::try_query_bytes::<Q, S, I, F, W>,
            (&client, addr, index, ask, write),
            result,
        ),
    ensures
        exists|slot: usize, asked: Result<(Q, S), PirError>|
            #![trigger call_ensures(index, (&addr,), slot), call_ensures(ask, (slot,), asked)]
            call_ensures(index, (&addr,), slot) && call_ensures(ask, (slot,), asked)
                && match asked {
                Err(p) => result == Err::<(Vec<u8>, LookupState<S>), _>(EthPirError::Pir(p)),
                Ok((query, state)) => exists|written: Result<Vec<u8>, WireError>| #[trigger]
                    call_ensures(write, (&query,), written) && match written {
                        Ok(bytes) => result matches Ok((b, lookup)) && b == bytes && lookup.addr()
                            == addr && lookup.state() == state,
                        Err(w) => result matches Err(e) && says(e, w),
                    },
            },
{
    let asked = choose|asked: Result<(Q, LookupState<S>), EthPirError>| #[trigger]
        client::query_gives(addr, index, ask, asked) && match asked {
            Err(e) => result == Err::<(Vec<u8>, LookupState<S>), _>(e),
            Ok((query, lookup)) => exists|written: Result<Vec<u8>, WireError>| #[trigger]
                call_ensures(write, (&query,), written) && result == match written {
                    Ok(bytes) => Ok((bytes, lookup)),
                    Err(e) => Err(EthPirError::Io { kind: e.kind, message: e.message }),
                },
        };
    let (slot, answer) = choose|slot: usize, answer: Result<(Q, S), PirError>|
        #![trigger call_ensures(index, (&addr,), slot), call_ensures(ask, (slot,), answer)]
        {
            &&& call_ensures(index, (&addr,), slot)
            &&& call_ensures(ask, (slot,), answer)
            &&& match answer {
                Err(e) => asked == Err::<(Q, LookupState<S>), _>(EthPirError::Pir(e)),
                Ok((query, state)) => asked matches Ok((q, lookup)) && q == query && lookup.addr()
                    == addr && lookup.state() == state,
            }
        };
    assert(call_ensures(index, (&addr,), slot) && call_ensures(ask, (slot,), answer));
}

/// Writing a query and reading a response give what the calls gave, and fail only
/// where those do.
pub proof fn law_wire_forms_come_through<C: RecordCodec, Q, A, W, R>(
    client: EthPirClient<C>,
    query: &Q,
    bytes: &[u8],
    write: W,
    read: R,
    sent: Result<Vec<u8>, EthPirError>,
    got: Result<A, EthPirError>,
) where W: FnOnce(&Q) -> Result<Vec<u8>, WireError>, R: FnOnce(&[u8]) -> Result<A, WireError>
    ensures
        call_ensures(EthPirClient::<C>::encode_query::<Q, W>, (&client, query, write), sent)
            ==> match sent {
            Ok(written) => call_ensures(write, (query,), Ok::<Vec<u8>, WireError>(written)),
            Err(e) => exists|w: WireError| #[trigger]
                call_ensures(write, (query,), Err::<Vec<u8>, WireError>(w)) && says(e, w),
        },
        call_ensures(EthPirClient::<C>::decode_response::<A, R>, (&client, bytes, read), got)
            ==> match got {
            Ok(response) => call_ensures(read, (bytes,), Ok::<A, WireError>(response)),
            Err(e) => exists|w: WireError| #[trigger]
                call_ensures(read, (bytes,), Err::<A, WireError>(w)) && says(e, w),
        },
{
}

/// Whether `result` is the value in `record`, where its first bytes are those of
/// `addr`, and else that the address is not served.
pub open spec fn reads<C: RecordCodec>(
    record: Record,
    addr: Address,
    result: Result<C::Value, EthPirError>,
) -> bool {
    if record@.take(20) == addr@ {
        exists|payload: [u8; 44]| payload@ == record@.skip(20) && result == Ok::<
            _,
            EthPirError,
        >(#[trigger] C::decoded(payload))
    } else {
        result == Err::<C::Value, _>(EthPirError::NotInSet)
    }
}

/// A record is read for an address where it starts with that address, and for no other.
pub proof fn law_record_is_read_for_its_own_address<C: RecordCodec>(
    record: Record,
    addr: Address,
    result: Result<C::Value, EthPirError>,
)
    requires
        call_ensures(client::verify_record::<C>, (&record, &addr), result),
    ensures
        reads::<C>(record, addr, result),
{
    crate::record::lemma_record_parts(record);
    if record@.take(20) == addr@ {
        crate::bytes::lemma_same_bytes(crate::record::address_in(record), addr);
        assert(crate::record::payload_in(record)@ == record@.skip(20));
        assert(result == Ok::<_, EthPirError>(C::decoded(crate::record::payload_in(record))));
    } else {
        assert(crate::record::address_in(record)@ != addr@);
    }
}

/// A response gives the value in the record that it decodes to, where that record is
/// the one of the address that was asked for; another record gives that the address
/// is not served, and a failure to decode comes through.
pub proof fn law_response_is_read_for_the_address_asked_for<C: RecordCodec, A, S, F>(
    client: EthPirClient<C>,
    response: &A,
    lookup: LookupState<S>,
    decode: F,
    result: Result<C::Value, EthPirError>,
) where F: FnOnce(&A, &S) -> Result<Record, PirError>
    requires
        call_ensures(
            EthPirClient::<C>::try_decrypt::<A, S, F>,
            (&client, response, &lookup, decode),
            result,
        ) || call_ensures(
            EthPirClient::<C>::decrypt::<A, S, F>,
            (&client, response, &lookup, decode),
            result,
        ),
    ensures
        exists|decoded: Result<Record, PirError>| #[trigger]
            call_ensures(decode, (response, &lookup.state()), decoded) && match decoded {
                Ok(record) => reads::<C>(record, lookup.addr(), result),
                Err(p) => result == Err::<C::Value, _>(EthPirError::Pir(p)),
            },
{
    assert(client::decrypt_gives::<C, A, S, F>(response, lookup, decode, result));
    decoded_reads::<C, A, S, F>(response, lookup, decode, result);
}

proof fn decoded_reads<C: RecordCodec, A, S, F>(
    response: &A,
    lookup: LookupState<S>,
    decode: F,
    result: Result<C::Value, EthPirError>,
) where F: FnOnce(&A, &S) -> Result<Record, PirError>
    requires
        client::decrypt_gives::<C, A, S, F>(response, lookup, decode, result),
    ensures
        exists|decoded: Result<Record, PirError>| #[trigger]
            call_ensures(decode, (response, &lookup.state()), decoded) && match decoded {
                Ok(record) => reads::<C>(record, lookup.addr(), result),
                Err(p) => result == Err::<C::Value, _>(EthPirError::Pir(p)),
            },
{
    let decoded = choose|decoded: Result<Record, PirError>| #[trigger]
        call_ensures(decode, (response, &lookup.state()), decoded) && result == match decoded {
            Err(e) => Err(EthPirError::Pir(e)),
            Ok(record) => crate::record::verified::<C>(record, lookup.addr()),
        };
    if let Ok(record) = decoded {
        let addr = lookup.addr();
        crate::record::lemma_record_parts(record);
        if record@.take(20) == addr@ {
            crate::bytes::lemma_same_bytes(crate::record::address_in(record), addr);
            assert(crate::record::payload_in(record)@ == record@.skip(20));
            assert(result == Ok::<_, EthPirError>(C::decoded(crate::record::payload_in(record))));
        } else {
            assert(crate::record::address_in(record)@ != addr@);
        }
        assert(reads::<C>(record, addr, result));
    }
}

/// A response in wire form is read back and then treated like any other; one that
/// cannot be read back gives what was said of it.
pub proof fn law_response_bytes_are_read_for_the_address_asked_for<C: RecordCodec, A, S, R, F>(
    client: EthPirClient<C>,
    bytes: &[u8],
    lookup: LookupState<S>,
    read: R,
    decode: F,
    result: Result<C::Value, EthPirError>,
) where R: FnOnce(&[u8]) -> Result<A, WireError>, F: FnOnce(&A, &S) -> Result<Record, PirError>
    requires
        call_ensures(
            EthPirClient::<C>::try_decrypt_bytes::<A, S, R, F>,
            (&client, bytes, &lookup, read, decode),
            result,
        ),
    ensures
        exists|parsed: Result<A, WireError>| #[trigger]
            call_ensures(read, (bytes,), parsed) && match parsed {
                Err(w) => result matches Err(e) && says(e, w),
                Ok(response) => exists|decoded: Result<Record, PirError>| #[trigger]
                    call_ensures(decode, (&response, &lookup.state()), decoded) && match decoded {
                        Ok(record) => reads::<C>(record, lookup.addr(), result),
                        Err(p) => result == Err::<C::Value, _>(EthPirError::Pir(p)),
                    },
            },
{
    let parsed = choose|parsed: Result<A, WireError>| #[trigger]
        call_ensures(read, (bytes,), parsed) && match parsed {
            Err(e) => result == Err::<C::Value, _>(
                EthPirError::Io { kind: e.kind, message: e.message },
            ),
            Ok(response) => client::decrypt_gives::<C, A, S, F>(&response, lookup, decode, result),
        };
    if let Ok(response) = parsed {
        decoded_reads::<C, A, S, F>(&response, lookup, decode, result);
    }
}

/// Setting a client up, bringing it up to date and applying a tail ask for nothing
/// but that the calls that are handed over may be made, whatever the blob.
pub proof fn law_client_takes_any_blob<C: RecordCodec, D, K, R, M, F>(
    client: &mut EthPirClient<C>,
    config: Config,
    layout: DatabaseLayout,
    blob: &[u8],
    read: R,
    make: M,
    apply: F,
) where
    R: FnOnce(&[u8]) -> Result<(D, DirectoryState), WireError>,
    M: FnOnce(Config, DatabaseLayout) -> Result<K, PirError>,
    F: FnOnce(&[u8]) -> (DirectoryState, Result<(), WireError>),

    requires
        call_requires(read, (blob,)),
        call_requires(make, (config, layout)),
        call_requires(make, (usual_config(), usual_layout())),
        call_requires(apply, (blob,)),
    ensures
        call_requires(
            EthPirClient::<C>::try_with_shape::<D, K, R, M>,
            (config, layout, blob, read, make),
        ),
        call_requires(
            EthPirClient::<C>::with_shape::<D, K, R, M>,
            (config, layout, blob, read, make),
        ),
        call_requires(EthPirClient::<C>::try_new::<D, K, R, M>, (blob, read, make)),
        call_requires(EthPirClient::<C>::new::<D, K, R, M>, (blob, read, make)),
        call_requires(EthPirClient::<C>::try_resync::<D, R>, (client, blob, read)),
        call_requires(EthPirClient::<C>::resync::<D, R>, (client, blob, read)),
        call_requires(EthPirClient::<C>::try_apply_tail::<F>, (client, blob, apply)),
        call_requires(EthPirClient::<C>::apply_tail::<F>, (client, blob, apply)),
{
}

/// An address may be asked for, and a response be read, wherever the calls that are
/// handed over may be made.
pub proof fn law_client_asks_for_any_address<C: RecordCodec, Q, S, A, I, F, W, R, G>(
    client: EthPirClient<C>,
    addr: Address,
    index: I,
    ask: F,
    write: W,
    bytes: &[u8],
    response: &A,
    lookup: LookupState<S>,
    read: R,
    decode: G,
) where
    I: FnOnce(&Address) -> usize,
    F: FnOnce(usize) -> Result<(Q, S), PirError>,
    W: FnOnce(&Q) -> Result<Vec<u8>, WireError>,
    R: FnOnce(&[u8]) -> Result<A, WireError>,
    G: FnOnce(&A, &S) -> Result<Record, PirError>,

    requires
        call_requires(index, (&addr,)),
        forall|slot: usize| #[trigger] call_requires(ask, (slot,)),
        forall|query: Q| #[trigger] call_requires(write, (&query,)),
        call_requires(read, (bytes,)),
        forall|any: A| #[trigger] call_requires(decode, (&any, &lookup.state())),
    ensures
        call_requires(EthPirClient::<C>::slot::<I>, (&client, &addr, index)),
        call_requires(EthPirClient::<C>::try_query::<Q, S, I, F>, (&client, addr, index, ask)),
        call_requires(
            EthPirClient::<C>::try_query_bytes::<Q, S, I, F, W>,
            (&client, addr, index, ask, write),
        ),
        call_requires(EthPirClient::<C>::decode_response::<A, R>, (&client, bytes, read)),
        call_requires(
            EthPirClient::<C>::try_decrypt::<A, S, G>,
            (&client, response, &lookup, decode),
        ),
        call_requires(EthPirClient::<C>::decrypt::<A, S, G>, (&client, response, &lookup, decode)),
        call_requires(
            EthPirClient::<C>::try_decrypt_bytes::<A, S, R, G>,
            (&client, bytes, &lookup, read, decode),
        ),
{
}

} // verus!
