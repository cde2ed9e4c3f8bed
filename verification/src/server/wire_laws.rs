//! What the services towards clients do: the keyword helper and the responder, stated
//! over the calls that they are given and the values that they hand back.

use vstd::prelude::*;

use crate::client_laws;
use crate::error::{EthPirError, PirError, WireError};
use crate::record::RecordCodec;
use crate::server::keyword::{DirectoryState, KeywordSyncMode, KeywordWire};
use crate::server::responder;
use crate::server::responder::EthPirResponder;
use crate::server::EthPirServer;

verus! {

/// The keyword helper of a server tells the version of its directory, and sends a
/// client of that version the tail from where the client's own ends, and every other
/// client the whole directory.
pub proof fn law_helper_serves_the_directory<C: RecordCodec>(
    server: EthPirServer<C>,
    directory: DirectoryState,
    version: u64,
    client_version: u64,
    client_tail_len: usize,
    mode: KeywordSyncMode,
)
    ensures
        forall|wire: KeywordWire<'_>| #[trigger]
            call_ensures(EthPirServer::<C>::keyword, (&server,), wire) ==> *wire.directory
                == server@.directory,
        call_ensures(KeywordWire::version, (&KeywordWire { directory: &directory },), version)
            ==> version == directory.version,
        call_ensures(
            KeywordWire::sync_mode,
            (&KeywordWire { directory: &directory }, client_version, client_tail_len),
            mode,
        ) ==> if client_version == directory.version {
            mode == (KeywordSyncMode::Tail { from: client_tail_len })
        } else {
            mode == KeywordSyncMode::Full
        },
{
}

/// Whether `result` is what writing into an empty buffer gave.
pub open spec fn written_whole(
    left: Vec<u8>,
    outcome: Result<(), WireError>,
    result: Result<Vec<u8>, WireError>,
) -> bool {
    match outcome {
        Ok(()) => result matches Ok(blob) && blob == left,
        Err(w) => result matches Err(e) && e == w,
    }
}

/// The whole directory, its base and its tail are sent as they were written into an
/// empty buffer, the tail from where it was asked for.
pub proof fn law_helper_sends_what_was_written<W, V>(
    wire: KeywordWire<'_>,
    have: usize,
    write: W,
    write_tail: V,
    full: Result<Vec<u8>, WireError>,
    base: Result<Vec<u8>, WireError>,
    tail: Result<Vec<u8>, WireError>,
) where
    W: FnOnce(Vec<u8>) -> (Vec<u8>, Result<(), WireError>),
    V: FnOnce(Vec<u8>, usize) -> (Vec<u8>, Result<(), WireError>),

    ensures
        call_ensures(KeywordWire::try_full::<W>, (&wire, write), full) ==> exists|
            buffer: Vec<u8>,
            written: (Vec<u8>, Result<(), WireError>),
        |
            buffer@.len() == 0 && #[trigger] call_ensures(write, (buffer,), written)
                && written_whole(written.0, written.1, full),
        call_ensures(KeywordWire::try_mphf::<W>, (&wire, write), base) ==> exists|
            buffer: Vec<u8>,
            written: (Vec<u8>, Result<(), WireError>),
        |
            buffer@.len() == 0 && #[trigger] call_ensures(write, (buffer,), written)
                && written_whole(written.0, written.1, base),
        call_ensures(KeywordWire::try_tail::<V>, (&wire, have, write_tail), tail) ==> exists|
            buffer: Vec<u8>,
            written: (Vec<u8>, Result<(), WireError>),
        |
            buffer@.len() == 0 && #[trigger] call_ensures(write_tail, (buffer, have), written)
                && written_whole(written.0, written.1, tail),
{
}

/// The directory may be sent to any client, wherever it may be written.
pub proof fn law_helper_sends_to_anyone<W, V>(
    wire: KeywordWire<'_>,
    have: usize,
    write: W,
    write_tail: V,
) where
    W: FnOnce(Vec<u8>) -> (Vec<u8>, Result<(), WireError>),
    V: FnOnce(Vec<u8>, usize) -> (Vec<u8>, Result<(), WireError>),

    requires
        forall|buffer: Vec<u8>| #[trigger] call_requires(write, (buffer,)),
        forall|buffer: Vec<u8>| #[trigger] call_requires(write_tail, (buffer, have)),
    ensures
        call_requires(KeywordWire::try_full::<W>, (&wire, write)),
        call_requires(KeywordWire::try_mphf::<W>, (&wire, write)),
        call_requires(KeywordWire::try_tail::<V>, (&wire, have, write_tail)),
{
}

/// Whether `result` is the answer in `reply`, the PIR layer's failure in it, or, where
/// there is none, that the server is poisoned.
pub open spec fn comes_through<A>(
    reply: Option<Result<A, PirError>>,
    result: Result<A, EthPirError>,
) -> bool {
    match result {
        Ok(answer) => reply == Some(Ok::<A, PirError>(answer)),
        Err(EthPirError::ServerPoisoned) => reply is None,
        Err(EthPirError::Pir(p)) => reply == Some(Err::<A, PirError>(p)),
        Err(_) => false,
    }
}

/// A parsed query, or a batch of them, is answered by the serving side with what that
/// gave, by a server and by a responder alike.
pub proof fn law_queries_are_answered_by_the_serving_side<C: RecordCodec, S, Q, A, F, G>(
    server: EthPirServer<C>,
    responder: EthPirResponder<S>,
    serving: &S,
    query: &Q,
    queries: &[Q],
    answer: F,
    answer_all: G,
    reply: Option<Result<A, PirError>>,
    result: Result<A, EthPirError>,
    results: Result<Vec<A>, EthPirError>,
) where
    F: FnOnce(&S, &Q) -> Option<Result<A, PirError>>,
    G: FnOnce(&S, &[Q]) -> Option<Result<Vec<A>, PirError>>,

    ensures
        call_ensures(responder::take_reply::<A>, (reply,), result) ==> comes_through(reply, result),
        call_ensures(
            EthPirServer::<C>::try_respond::<S, Q, A, F>,
            (&server, serving, query, answer),
            result,
        ) ==> exists|given: Option<Result<A, PirError>>| #[trigger]
            call_ensures(answer, (serving, query), given) && comes_through(given, result),
        call_ensures(
            EthPirResponder::<S>::try_respond::<Q, A, F>,
            (&responder, query, answer),
            result,
        ) ==> exists|given: Option<Result<A, PirError>>| #[trigger]
            call_ensures(answer, (&responder.serving(), query), given) && comes_through(
                given,
                result,
            ),
        call_ensures(
            EthPirServer::<C>::try_respond_batch::<S, Q, A, G>,
            (&server, serving, queries, answer_all),
            results,
        ) ==> exists|given: Option<Result<Vec<A>, PirError>>| #[trigger]
            call_ensures(answer_all, (serving, queries), given) && comes_through(given, results),
        call_ensures(
            EthPirResponder::<S>::try_respond_batch::<Q, A, G>,
            (&responder, queries, answer_all),
            results,
        ) ==> exists|given: Option<Result<Vec<A>, PirError>>| #[trigger]
            call_ensures(answer_all, (&responder.serving(), queries), given) && comes_through(
                given,
                results,
            ),
{
}

/// A query in wire form is answered with what writing the answer gave, and fails only
/// where the lock was poisoned, or parsing, answering or writing failed.
pub proof fn law_query_bytes_are_answered<'a, S, G, Q, A, L, R, F, W>(
    responder: &'a EthPirResponder<S>,
    query: &[u8],
    lock: L,
    read: R,
    respond: F,
    write: W,
    result: Result<Vec<u8>, EthPirError>,
) where
    L: FnOnce(&'a S) -> Option<G>,
    R: FnOnce(&G, &[u8]) -> Result<Q, WireError>,
    F: FnOnce(G, &Q) -> (G, Result<A, PirError>),
    W: FnOnce(&G, &A) -> Result<Vec<u8>, WireError>,

    requires
        call_ensures(
            EthPirResponder::<S>::try_respond_bytes::<G, Q, A, L, R, F, W>,
            (responder, query, lock, read, respond, write),
            result,
        ),
    ensures
        match result {
            Ok(bytes) => exists|
                guard: G,
                parsed: Q,
                asked: (G, Result<A, PirError>),
                answer: A,
            |
                #![trigger call_ensures(respond, (guard, &parsed), asked), call_ensures(
                    write,
                    (&asked.0, &answer),
                    Ok::<Vec<u8>, WireError>(bytes),
                )]
                {
                    &&& call_ensures(lock, (&responder.serving(),), Some(guard))
                    &&& call_ensures(read, (&guard, query), Ok::<Q, WireError>(parsed))
                    &&& call_ensures(respond, (guard, &parsed), asked)
                    &&& asked.1 == Ok::<A, PirError>(answer)
                    &&& call_ensures(
                        write,
                        (&asked.0, &answer),
                        Ok::<Vec<u8>, WireError>(bytes),
                    )
                },
            Err(e) => {
                ||| e == EthPirError::ServerPoisoned && call_ensures(
                    lock,
                    (&responder.serving(),),
                    None::<G>,
                )
                ||| exists|guard: G, w: WireError| #[trigger]
                    call_ensures(read, (&guard, query), Err::<Q, WireError>(w))
                        && client_laws::says(e, w)
                ||| exists|guard: G, parsed: Q, asked: (G, Result<A, PirError>)| #[trigger]
                    call_ensures(respond, (guard, &parsed), asked) && (asked.1 matches Err(p) && e
                        == EthPirError::Pir(p))
                ||| exists|guard: G, answer: A, w: WireError| #[trigger]
                    call_ensures(write, (&guard, &answer), Err::<Vec<u8>, WireError>(w))
                        && client_laws::says(e, w)
            },
        },
{
    match result {
        Ok(bytes) => responder::law_reply_is_the_written_answer(
            &responder.serving(),
            query,
            lock,
            read,
            respond,
            write,
            bytes,
        ),
        Err(e) => responder::law_single_query_fails_only_where_a_step_fails(
            &responder.serving(),
            query,
            lock,
            read,
            respond,
            write,
            e,
        ),
    }
}

/// A batch in wire form, whatever its size, gives one reply for each input, and fails as
/// a whole only where the lock was poisoned or the database failed.
pub proof fn law_batch_bytes_are_answered<'a, S, B, G, Q, A, L, R, F, W>(
    responder: &'a EthPirResponder<S>,
    queries: &[B],
    lock: L,
    read: R,
    respond: F,
    write: W,
    result: Result<Vec<Result<Vec<u8>, EthPirError>>, EthPirError>,
) where
    L: FnOnce(&'a S) -> Option<G>,
    R: Fn(&G, &B) -> Result<Q, WireError>,
    F: FnOnce(G, &Vec<Q>) -> (G, Result<Vec<A>, PirError>),
    W: Fn(&G, &A) -> Result<Vec<u8>, WireError>,

    requires
        call_ensures(
            EthPirResponder::<S>::try_respond_batch_bytes::<B, G, Q, A, L, R, F, W>,
            (responder, queries, lock, read, respond, write),
            result,
        ),
    ensures
        match result {
            Ok(replies) => replies@.len() == queries@.len(),
            Err(e) => {
                ||| e == EthPirError::ServerPoisoned && call_ensures(
                    lock,
                    (&responder.serving(),),
                    None::<G>,
                )
                ||| exists|guard: G, parsed: Vec<Q>, asked: (G, Result<Vec<A>, PirError>)|
                    #[trigger]
                    call_ensures(respond, (guard, &parsed), asked) && (asked.1 matches Err(p) && e
                        == EthPirError::Pir(p))
            },
        },
{
    if let Err(e) = result {
        responder::law_batch_fails_only_as_a_whole(
            &responder.serving(),
            queries@,
            lock,
            read,
            respond,
            write,
            e,
        );
    }
}

/// Where the database answers each query of a batch, input `i` gets its own parse
/// failure, or what writing the answer gave that stands where it was asked for.
pub proof fn law_batch_bytes_keep_their_places<'a, S, B, G, Q, A, L, R, F, W>(
    responder: &'a EthPirResponder<S>,
    queries: &[B],
    lock: L,
    read: R,
    respond: F,
    write: W,
    replies: Vec<Result<Vec<u8>, EthPirError>>,
    i: int,
) where
    L: FnOnce(&'a S) -> Option<G>,
    R: Fn(&G, &B) -> Result<Q, WireError>,
    F: FnOnce(G, &Vec<Q>) -> (G, Result<Vec<A>, PirError>),
    W: Fn(&G, &A) -> Result<Vec<u8>, WireError>,

    requires
        0 <= i < queries@.len(),
        forall|guard: G, parsed: Vec<Q>, asked: (G, Result<Vec<A>, PirError>)| #[trigger]
            call_ensures(respond, (guard, &parsed), asked) ==> (asked.1 matches Ok(answers)
                ==> answers@.len() == parsed@.len()),
        call_ensures(
            EthPirResponder::<S>::try_respond_batch_bytes::<B, G, Q, A, L, R, F, W>,
            (responder, queries, lock, read, respond, write),
            Ok(replies),
        ),
    ensures
        exists|guard: G, parsed: Result<Q, WireError>|
            #![trigger call_ensures(read, (&guard, &queries@[i]), parsed)]
            call_ensures(read, (&guard, &queries@[i]), parsed) && match parsed {
                Err(w) => replies@[i] matches Err(e) && client_laws::says(e, w),
                Ok(query) => exists|
                    all: Vec<Q>,
                    asked: (G, Result<Vec<A>, PirError>),
                    k: int,
                    written: Result<Vec<u8>, WireError>,
                |
                    #![trigger call_ensures(respond, (guard, &all), asked), call_ensures(
                        write,
                        (&asked.0, &(asked.1->Ok_0)@[k]),
                        written,
                    )]
                    {
                        &&& call_ensures(respond, (guard, &all), asked)
                        &&& asked.1 is Ok
                        &&& 0 <= k < all@.len()
                        &&& all@[k] == query
                        &&& call_ensures(write, (&asked.0, &(asked.1->Ok_0)@[k]), written)
                        &&& match written {
                            Ok(bytes) => replies@[i] == Ok::<Vec<u8>, EthPirError>(bytes),
                            Err(w) => replies@[i] matches Err(e) && client_laws::says(e, w),
                        }
                    },
            },
{
    responder::law_each_input_gets_its_own_answer(
        &responder.serving(),
        queries@,
        lock,
        read,
        respond,
        write,
        replies@,
        i,
    );
}

/// A responder is handed the serving side of its server, and answers a query or a batch
/// of any size wherever the calls that are handed over may be made.
pub proof fn law_responder_takes_any_query<'a, C: RecordCodec, S: Clone, B, G, Q, A, L, R, F, W, R1, F1>(
    server: EthPirServer<C>,
    responder: &'a EthPirResponder<S>,
    serving: S,
    made: EthPirResponder<S>,
    query: &[u8],
    queries: &[B],
    lock: L,
    read: R,
    respond: F,
    write: W,
    read_one: R1,
    respond_one: F1,
) where
    L: FnOnce(&'a S) -> Option<G>,
    R: Fn(&G, &B) -> Result<Q, WireError>,
    F: FnOnce(G, &Vec<Q>) -> (G, Result<Vec<A>, PirError>),
    W: Fn(&G, &A) -> Result<Vec<u8>, WireError>,
    R1: FnOnce(&G, &[u8]) -> Result<Q, WireError>,
    F1: FnOnce(G, &Q) -> (G, Result<A, PirError>),

    requires
        call_requires(lock, (&responder.serving(),)),
        forall|guard: G, any: B| #[trigger] call_requires(read, (&guard, &any)),
        forall|guard: G, parsed: Vec<Q>| #[trigger] call_requires(respond, (guard, &parsed)),
        forall|guard: G, answer: A| #[trigger] call_requires(write, (&guard, &answer)),
        forall|guard: G| #[trigger] call_requires(read_one, (&guard, query)),
        forall|guard: G, parsed: Q| #[trigger] call_requires(respond_one, (guard, &parsed)),
    ensures
        call_ensures(EthPirResponder::<S>::new, (serving,), made) ==> made.serving() == serving,
        call_ensures(EthPirServer::<C>::responder::<S>, (&server, &serving), made) ==> cloned(
            serving,
            made.serving(),
        ),
        call_requires(
            EthPirResponder::<S>::try_respond_bytes::<G, Q, A, L, R1, F1, W>,
            (responder, query, lock, read_one, respond_one, write),
        ),
        call_requires(
            EthPirResponder::<S>::try_respond_batch_bytes::<B, G, Q, A, L, R, F, W>,
            (responder, queries, lock, read, respond, write),
        ),
{
}

} // verus!
